use vstd::prelude::*;
use vstd::string::*;
use std::collections::HashMap;
use crate::diagnostic::{Diagnostic, ErrorCode, raise};
use crate::function::Function;
use crate::heap::Heap;
use crate::instruction::Instruction;
use crate::span::Span;
use crate::stack::Stack;
use crate::value::{Reference, Value, truthy};

verus! {

broadcast use vstd::std_specs::hash::group_hash_axioms;

/// The most values the value stack holds.
pub const STACK_CAPACITY: usize = 8192;

/// The most frames the call stack holds.
pub const FRAMES_CAPACITY: usize = 128;

/// A pending call: the function, the index of its next instruction, and the
/// stack index of its local slot zero.
#[derive(Clone, Copy, Debug, PartialEq, Eq, Structural)]
pub struct CallFrame {
    pub function: Reference,
    pub pc: usize,
    pub base: usize,
}

/// Work on IEEE-754 doubles, given by their bit patterns, that the embedding
/// program carries out: arithmetic yields a number, a comparison a boolean.
#[derive(Clone, Copy, Debug, PartialEq, Eq, Structural)]
pub enum Numeric {
    Add(u64, u64),
    Subtract(u64, u64),
    Multiply(u64, u64),
    Divide(u64, u64),
    Negate(u64),
    Greater(u64, u64),
    Less(u64, u64),
    Equal(u64, u64),
}

/// What a `Print` writes, before its newline: text, or a number that the
/// embedding program formats.
#[derive(Debug)]
pub enum Printed {
    Text(String),
    Number(u64),
}

/// The outcome of one step of the machine.
#[derive(Debug)]
pub enum Step {
    /// An instruction ran; nothing is asked of the caller.
    Continue,
    /// A `Print` ran; the caller writes this and a newline.
    Print(Printed),
    /// The caller computes this and hands the result to `resume`.
    Compute(Numeric),
    /// The native `clock` was called; the caller hands the milliseconds since
    /// the machine started, as a number, to `resume`.
    Clock,
    /// The script returned; the machine is done.
    Halted,
}

/// Equality of two values that are not both numbers: same variant and same
/// payload. Strings are interned, so equal handles means equal contents.
pub open spec fn values_equal(a: Value, b: Value) -> bool {
    match (a, b) {
        (Value::Nil, Value::Nil) => true,
        (Value::Boolean(x), Value::Boolean(y)) => x == y,
        (Value::String(x), Value::String(y)) => x == y,
        (Value::Function(x), Value::Function(y)) => x == y,
        _ => false,
    }
}

/// The stack after `Not` on `stack`.
pub open spec fn not_effect(stack: Seq<Value>) -> Seq<Value> {
    stack.drop_last().push(Value::Boolean(!truthy(stack.last())))
}

/// The stack after `Equal` on `stack` whose two top values are not both numbers.
pub open spec fn equal_effect(stack: Seq<Value>) -> Seq<Value> {
    stack.drop_last().drop_last().push(
        Value::Boolean(values_equal(stack[stack.len() - 2], stack.last())),
    )
}

/// The index that a jump at `pc` by `offset` lands on, or `pc + 1` when a
/// conditional jump sees a truthy `top`.
pub open spec fn jump_target(pc: int, offset: isize, taken: bool) -> int {
    if taken { pc + offset } else { pc + 1 }
}

/// Every global value lives in `heap`.
pub open spec fn globals_in(heap: Heap, globals: Map<usize, Value>) -> bool {
    forall|k: usize| #[trigger] globals.contains_key(k) ==> heap.value_in(globals[k])
}

/// A stack interpreter over the functions of its heap.
pub struct VirtualMachine {
    heap: Heap,
    stack: Stack<Value, STACK_CAPACITY>,
    frames: Stack<CallFrame, FRAMES_CAPACITY>,
    globals: HashMap<usize, Value>,
    pending_bases: Vec<usize>,
    awaiting: bool,
}

impl VirtualMachine {
    pub closed spec fn values(&self) -> Seq<Value> {
        self.stack@
    }

    pub closed spec fn call_frames(&self) -> Seq<CallFrame> {
        self.frames@
    }

    /// The globals, keyed by the heap index of their interned name.
    pub closed spec fn global_map(&self) -> Map<usize, Value> {
        self.globals@
    }

    pub closed spec fn memory(&self) -> Heap {
        self.heap
    }

    pub closed spec fn pending(&self) -> Seq<usize> {
        self.pending_bases@
    }

    /// A request was handed out and its result has not come back yet.
    pub closed spec fn is_awaiting(&self) -> bool {
        self.awaiting
    }

    /// The code of the function that `f` runs.
    pub open spec fn code_of(&self, f: CallFrame) -> Seq<Instruction> {
        self.memory().functions()[f.function.index as int].chunk.code()
    }

    /// The frame on top of the call stack.
    pub open spec fn current(&self) -> CallFrame {
        self.call_frames().last()
    }

    /// The instruction that the next step runs.
    pub open spec fn current_instruction(&self) -> Instruction {
        self.code_of(self.current())[self.current().pc as int]
    }

    /// The span of the instruction that the next step runs.
    pub open spec fn instruction_span(&self) -> Span {
        self.memory().functions()[self.current().function.index as int].chunk.span_list()[self.current().pc as int]
    }

    pub open spec fn frame_ok(&self, f: CallFrame) -> bool {
        frame_fits(self.memory(), f, self.values().len())
    }

    /// The heap is well formed; every value on the stack and in the globals
    /// lives in it; every frame runs a function of it at a valid index, with
    /// bases that never decrease from the bottom frame up.
    pub open spec fn wf(&self) -> bool {
        &&& self.memory().wf()
        &&& self.values().len() <= STACK_CAPACITY
        &&& self.call_frames().len() <= FRAMES_CAPACITY
        &&& values_in(self.memory(), self.values())
        &&& globals_in(self.memory(), self.global_map())
        &&& frames_fit(self.memory(), self.call_frames(), self.values().len())
    }
}

/// Every value of `values` lives in `heap`.
pub open spec fn values_in(heap: Heap, values: Seq<Value>) -> bool {
    forall|i: int| 0 <= i < values.len() ==> #[trigger] heap.value_in(values[i])
}

/// `f` runs a function of `heap` at one of its instructions, with its base
/// within a stack of `height` values.
pub open spec fn frame_fits(heap: Heap, f: CallFrame, height: nat) -> bool {
    &&& heap.holds_function(f.function)
    &&& f.pc < heap.functions()[f.function.index as int].chunk.code().len()
    &&& f.base <= height
}

/// Every frame fits, and bases never decrease from the bottom frame up.
pub open spec fn frames_fit(heap: Heap, frames: Seq<CallFrame>, height: nat) -> bool {
    &&& forall|i: int| 0 <= i < frames.len() ==> #[trigger] frame_fits(heap, frames[i], height)
    &&& forall|i: int, j: int| 0 <= i <= j < frames.len() ==> frames[i].base <= frames[j].base
}


impl VirtualMachine {
    /// A machine about to run `function` as the script, with an empty stack
    /// and no globals. The script is allocated on `heap`, which the machine owns.
    pub fn new(heap: Heap, function: Function) -> (r: VirtualMachine)
        requires
            heap.wf(),
            heap.function_ok(function),
        ensures
            r.wf(),
            r.values().len() == 0,
            r.global_map().dom().len() == 0,
            r.pending().len() == 0,
            !r.is_awaiting(),
            r.memory().strings() == heap.strings(),
            r.memory().functions() == heap.functions().push(function),
            r.call_frames() == seq![
                CallFrame { function: Reference { index: heap.functions().len() as usize }, pc: 0, base: 0 },
            ],
    {
        let mut heap = heap;
        let function = heap.spawn(function);
        let mut frames: Stack<CallFrame, FRAMES_CAPACITY> = Stack::new();
        let script = CallFrame { function, pc: 0, base: 0 };
        let _ = frames.push(script, Span { start: 0, end: 0 });
        let vm = VirtualMachine {
            heap,
            stack: Stack::new(),
            frames,
            globals: HashMap::new(),
            pending_bases: Vec::new(),
            awaiting: false,
        };
        proof {
            assert(vm.call_frames() =~= seq![script]);
            assert(vm.memory().function_ok(vm.memory().functions()[function.index as int]));
            assert(vm.global_map() =~= Map::empty());
        }
        vm
    }

    /// The state is as in `old` but for the stack.
    pub open spec fn same_but_values(&self, old: &VirtualMachine) -> bool {
        &&& self.memory() == old.memory()
        &&& self.call_frames() == old.call_frames()
        &&& self.global_map() == old.global_map()
        &&& self.pending() == old.pending()
        &&& self.is_awaiting() == old.is_awaiting()
    }

    /// Pops the top value of the current frame, or reports an underflow when
    /// the frame has pushed nothing left to pop.
    fn pop_value(&mut self, span: Span) -> (r: Result<Value, Diagnostic>)
        requires
            old(self).wf(),
            old(self).call_frames().len() > 0,
        ensures
            r matches Err(d) ==> d.span == span,
            final(self).wf(),
            final(self).same_but_values(old(self)),
            old(self).values().len() > old(self).current().base ==> {
                &&& r == Ok::<Value, Diagnostic>(old(self).values().last())
                &&& final(self).values() == old(self).values().drop_last()
                &&& final(self).memory().value_in(old(self).values().last())
            },
            old(self).values().len() <= old(self).current().base ==> final(self).values() == old(
                self,
            ).values() && (r matches Err(d) && d.code == ErrorCode::StackUnderflow && d.span == span),
    {
        let n = self.frames.len();
        let base = self.frames.get(n - 1).base;
        if self.stack.len() <= base {
            return Err(raise(ErrorCode::StackUnderflow, span));
        }
        let r = self.stack.pop(span);
        proof {
            let m = self.call_frames().len() - 1;
            assert forall|i: int| 0 <= i < self.call_frames().len() implies #[trigger] frame_fits(
                self.memory(), self.call_frames()[i], self.values().len()) by {
                assert(frame_fits(old(self).memory(), old(self).call_frames()[i], old(self).values().len()));
                assert(self.call_frames()[i].base <= self.call_frames()[m].base);
            }
            assert forall|i: int| 0 <= i < self.values().len() implies #[trigger] self.memory().value_in(
                self.values()[i],
            ) by {
                assert(old(self).memory().value_in(old(self).values()[i]));
            }
            assert(old(self).memory().value_in(old(self).values()[old(self).values().len() - 1]));
        }
        r
    }

    /// Pushes `value`, or reports an overflow when the stack is full.
    fn push_value(&mut self, value: Value, span: Span) -> (r: Result<(), Diagnostic>)
        requires
            old(self).wf(),
            old(self).memory().value_in(value),
        ensures
            r matches Err(d) ==> d.span == span,
            final(self).wf(),
            final(self).same_but_values(old(self)),
            old(self).values().len() < STACK_CAPACITY ==> r is Ok && final(self).values() == old(
                self,
            ).values().push(value),
            old(self).values().len() >= STACK_CAPACITY ==> final(self).values() == old(self).values()
                && (r matches Err(d) && d.code == ErrorCode::StackOverflow && d.span == span),
    {
        let r = self.stack.push(value, span);
        proof {
            assert forall|i: int| 0 <= i < self.call_frames().len() implies #[trigger] frame_fits(
                self.memory(), self.call_frames()[i], self.values().len()) by {
                assert(frame_fits(old(self).memory(), old(self).call_frames()[i], old(self).values().len()));
            }
            assert forall|i: int| 0 <= i < self.values().len() implies #[trigger] self.memory().value_in(
                self.values()[i],
            ) by {
                if i < old(self).values().len() {
                    assert(old(self).memory().value_in(old(self).values()[i]));
                }
            }
        }
        r
    }

    /// Moves the current frame to instruction `target`.
    fn set_pc(&mut self, target: usize)
        requires
            old(self).wf(),
            old(self).call_frames().len() > 0,
            target < old(self).code_of(old(self).current()).len(),
        ensures
            final(self).wf(),
            final(self).values() == old(self).values(),
            final(self).memory() == old(self).memory(),
            final(self).global_map() == old(self).global_map(),
            final(self).pending() == old(self).pending(),
            final(self).is_awaiting() == old(self).is_awaiting(),
            final(self).call_frames() == old(self).call_frames().update(
                old(self).call_frames().len() - 1,
                CallFrame { pc: target, ..old(self).current() },
            ),
    {
        let n = self.frames.len();
        let frame = *self.frames.get(n - 1);
        self.frames.set(n - 1, CallFrame { pc: target, ..frame });
        proof {
            assert forall|i: int| 0 <= i < self.call_frames().len() implies #[trigger] frame_fits(
                self.memory(), self.call_frames()[i], self.values().len()) by {
                assert(frame_fits(old(self).memory(), old(self).call_frames()[i], old(self).values().len()));
            }
            assert forall|i: int, j: int|
                0 <= i <= j < self.call_frames().len() implies self.call_frames()[i].base
                <= self.call_frames()[j].base by {
                assert(old(self).call_frames()[i].base <= old(self).call_frames()[j].base);
            }
        }
    }

    /// Moves the current frame past an instruction other than `Return`.
    fn advance(&mut self)
        requires
            old(self).wf(),
            old(self).call_frames().len() > 0,
            old(self).current_instruction() != Instruction::Return,
        ensures
            final(self).wf(),
            final(self).values() == old(self).values(),
            final(self).memory() == old(self).memory(),
            final(self).global_map() == old(self).global_map(),
            final(self).pending() == old(self).pending(),
            final(self).is_awaiting() == old(self).is_awaiting(),
            final(self).call_frames() == old(self).call_frames().update(
                old(self).call_frames().len() - 1,
                CallFrame { pc: (old(self).current().pc + 1) as usize, ..old(self).current() },
            ),
    {
        let n = self.frames.len();
        let frame = *self.frames.get(n - 1);
        proof {
            let f = old(self).current();
            assert(frame_fits(old(self).memory(), old(self).call_frames()[n - 1], old(self).values().len()));
            assert(old(self).memory().function_ok(old(self).memory().functions()[f.function.index as int]));
        }
        self.set_pc(frame.pc + 1);
    }

    /// What `Print` writes for `v`.
    fn printed(&self, v: Value) -> (r: Printed)
        requires
            self.memory().wf(),
            self.memory().value_in(v),
        ensures
            v matches Value::Number(bits) ==> r == Printed::Number(bits),
            !(v is Number) ==> (r matches Printed::Text(t) && printed_text(self.memory(), v) == Some(t@)),
    {
        proof {
            reveal_strlit("nil");
            reveal_strlit("true");
            reveal_strlit("false");
            reveal_strlit("<fun ");
            reveal_strlit(">");
        }
        match v {
            Value::Nil => Printed::Text(String::from_str("nil")),
            Value::Boolean(b) => if b {
                Printed::Text(String::from_str("true"))
            } else {
                Printed::Text(String::from_str("false"))
            },
            Value::Number(bits) => Printed::Number(bits),
            Value::String(r) => Printed::Text(self.heap.string(r).clone()),
            Value::Function(r) => {
                let mut text = String::from_str("<fun ");
                text.append(self.heap.function(r).name.as_str());
                text.append(">");
                proof {
                    assert(text@ =~= seq!['<', 'f', 'u', 'n', ' '] + self.memory().functions()[r.index as int].name@ + seq!['>']);
                }
                Printed::Text(text)
            },
        }
    }

    /// Pops a name: a string handle, or `E0010` for any other value.
    fn pop_name(&mut self, span: Span) -> (r: Result<Reference, Diagnostic>)
        requires
            old(self).wf(),
            old(self).call_frames().len() > 0,
        ensures
            r matches Err(d) ==> d.span == span,
            final(self).wf(),
            final(self).same_but_values(old(self)),
            old(self).values().len() > old(self).current().base ==> {
                &&& final(self).values() == old(self).values().drop_last()
                &&& (old(self).values().last() matches Value::String(n) ==> r == Ok::<Reference, Diagnostic>(n) && final(self).memory().holds_string(n))
                &&& (!(old(self).values().last() is String) ==> (r matches Err(d) && d.code == ErrorCode::InvalidIdentifier))
            },
            old(self).values().len() <= old(self).current().base ==> r is Err,
    {
        match self.pop_value(span) {
            Ok(Value::String(r)) => Ok(r),
            Ok(_) => Err(raise(ErrorCode::InvalidIdentifier, span)),
            Err(d) => Err(d),
        }
    }

    /// Pops two numbers for `Subtract`, `Multiply`, `Divide`, `Greater` or
    /// `Less` and hands the work out; `E0008` when either is not a number.
    fn exec_numeric(&mut self, span: Span) -> (r: Result<Step, Diagnostic>)
        requires
            old(self).wf(),
            !old(self).is_awaiting(),
            old(self).call_frames().len() > 0,
            old(self).current_instruction() is Subtract || old(self).current_instruction() is Multiply
                || old(self).current_instruction() is Divide || old(self).current_instruction() is Greater
                || old(self).current_instruction() is Less,
        ensures
            final(self).kept(old(self), r),
            r matches Err(d) ==> d.span == span,
            final(self).wf(),
            final(self).outcome_ok(r),
            final(self).global_map() == old(self).global_map(),
            final(self).numeric_stepped(old(self), r),
    {
        let ins = self.current_code_instruction();
        let right = match self.pop_value(span) {
            Ok(v) => v,
            Err(d) => return Err(d),
        };
        let left = match self.pop_value(span) {
            Ok(v) => v,
            Err(d) => return Err(d),
        };
        match (left, right) {
            (Value::Number(a), Value::Number(b)) => {
                self.advance();
                self.awaiting = true;
                let work = match ins {
                    Instruction::Subtract => Numeric::Subtract(a, b),
                    Instruction::Multiply => Numeric::Multiply(a, b),
                    Instruction::Divide => Numeric::Divide(a, b),
                    Instruction::Greater => Numeric::Greater(a, b),
                    _ => Numeric::Less(a, b),
                };
                Ok(Step::Compute(work))
            },
            _ => Err(raise(ErrorCode::InvalidArithmetic, span)),
        }
    }

    /// The instruction that the next step runs.
    fn current_code_instruction(&self) -> (r: Instruction)
        requires
            self.wf(),
            self.call_frames().len() > 0,
        ensures
            r == self.current_instruction(),
    {
        let n = self.frames.len();
        let frame = *self.frames.get(n - 1);
        proof {
            assert(frame_fits(self.memory(), self.call_frames()[n - 1], self.values().len()));
        }
        self.heap.function(frame.function).chunk.instruction(frame.pc)
    }

    /// The span of the instruction that the next step runs.
    fn current_span(&self) -> (r: Span)
        requires
            self.wf(),
            self.call_frames().len() > 0,
        ensures
            r == self.instruction_span(),
    {
        let n = self.frames.len();
        let frame = *self.frames.get(n - 1);
        proof {
            let f = self.call_frames()[n - 1];
            assert(frame_fits(self.memory(), f, self.values().len()));
            assert(self.memory().function_ok(self.memory().functions()[f.function.index as int]));
        }
        self.heap.function(frame.function).chunk.span(frame.pc)
    }
}

impl VirtualMachine {
    /// What `Add` did: two numbers are handed out, two strings concatenated into an interned string, anything else is `E0009`.
    pub open spec fn add_stepped(&self, old: &VirtualMachine, r: Result<Step, Diagnostic>) -> bool {
            let st = old.values();
            st.len() >= old.current().base + 2 ==> match (st[st.len() - 2], st.last()) {
                (Value::Number(a), Value::Number(b)) => {
                    &&& self.values() == st.drop_last().drop_last()
                    &&& self.is_awaiting()
                    &&& r == Ok::<Step, Diagnostic>(Step::Compute(Numeric::Add(a, b)))
                },
                (Value::String(a), Value::String(b)) => {
                    &&& r == Ok::<Step, Diagnostic>(Step::Continue)
                    &&& self.values().len() == st.len() - 1
                    &&& self.values().last() matches Value::String(c)
                    &&& self.values() == st.drop_last().drop_last().push(self.values().last())
                    &&& self.memory().strings()[c.index as int] == old.memory().strings()[a.index as int]
                        + old.memory().strings()[b.index as int]
                },
                _ => r matches Err(d) && d.code == ErrorCode::InvalidAddition,
            }
    }

    /// What `Subtract`, `Multiply`, `Divide`, `Greater` or `Less` did: two numbers are handed out, anything else is `E0008`.
    pub open spec fn numeric_stepped(&self, old: &VirtualMachine, r: Result<Step, Diagnostic>) -> bool {
            let st = old.values();
            st.len() >= old.current().base + 2 ==> match (st[st.len() - 2], st.last()) {
                (Value::Number(a), Value::Number(b)) => {
                    &&& self.values() == st.drop_last().drop_last()
                    &&& self.is_awaiting()
                    &&& r == Ok::<Step, Diagnostic>(Step::Compute(match old.current_instruction() {
                        Instruction::Subtract => Numeric::Subtract(a, b),
                        Instruction::Multiply => Numeric::Multiply(a, b),
                        Instruction::Divide => Numeric::Divide(a, b),
                        Instruction::Greater => Numeric::Greater(a, b),
                        _ => Numeric::Less(a, b),
                    }))
                },
                _ => r matches Err(d) && d.code == ErrorCode::InvalidArithmetic,
            }
    }

    /// What `Equal` did: two numbers are handed out, any other pair is compared by `values_equal`.
    pub open spec fn equal_stepped(&self, old: &VirtualMachine, r: Result<Step, Diagnostic>) -> bool {
            let st = old.values();
            st.len() >= old.current().base + 2 ==> match (st[st.len() - 2], st.last()) {
                (Value::Number(a), Value::Number(b)) => {
                    &&& self.values() == st.drop_last().drop_last()
                    &&& self.is_awaiting()
                    &&& r == Ok::<Step, Diagnostic>(Step::Compute(Numeric::Equal(a, b)))
                },
                _ => {
                    &&& r == Ok::<Step, Diagnostic>(Step::Continue)
                    &&& self.values() == equal_effect(st)
                    &&& !self.is_awaiting()
                },
            }
    }

    /// What `DefineGlobal` did: an unbound name is bound to the value under it, which adds exactly one key.
    pub open spec fn define_stepped(&self, old: &VirtualMachine, r: Result<Step, Diagnostic>) -> bool {
            let st = old.values();
            st.len() >= old.current().base + 2 ==> match st.last() {
                Value::String(n) => if old.global_map().contains_key(n.index) {
                    (r matches Err(d) && d.code == ErrorCode::MultipleDefinition) && self.global_map() == old.global_map()
                } else {
                    &&& r == Ok::<Step, Diagnostic>(Step::Continue)
                    &&& self.global_map() == old.global_map().insert(n.index, st[st.len() - 2])
                    &&& self.global_map().dom().len() == old.global_map().dom().len() + 1
                    &&& self.values() == st.drop_last().drop_last()
                },
                _ => r matches Err(d) && d.code == ErrorCode::InvalidIdentifier,
            }
    }

    /// What `GetGlobal` did: the name is replaced by its value, or `E0012` when unbound.
    pub open spec fn get_global_stepped(&self, old: &VirtualMachine, r: Result<Step, Diagnostic>) -> bool {
            let st = old.values();
            st.len() > old.current().base ==> match st.last() {
                Value::String(n) => if old.global_map().contains_key(n.index) {
                    &&& r == Ok::<Step, Diagnostic>(Step::Continue)
                    &&& self.values() == st.drop_last().push(old.global_map()[n.index])
                } else {
                    r matches Err(d) && d.code == ErrorCode::UndefinedVariable
                },
                _ => r matches Err(d) && d.code == ErrorCode::InvalidIdentifier,
            }
    }

    /// What `SetGlobal` did: the name is rebound to the value under it, which stays, or `E0012` when unbound.
    pub open spec fn set_global_stepped(&self, old: &VirtualMachine, r: Result<Step, Diagnostic>) -> bool {
            let st = old.values();
            st.len() >= old.current().base + 2 ==> match st.last() {
                Value::String(n) => if old.global_map().contains_key(n.index) {
                    &&& r == Ok::<Step, Diagnostic>(Step::Continue)
                    &&& self.values() == st.drop_last()
                    &&& self.global_map() == old.global_map().insert(n.index, st[st.len() - 2])
                } else {
                    r matches Err(d) && d.code == ErrorCode::UndefinedVariable
                },
                _ => r matches Err(d) && d.code == ErrorCode::InvalidIdentifier,
            }
    }

    /// What `Invoke` did. The name on top is popped, and the base recorded by
    /// `PrepareInvoke` (which must lie within the current frame) is taken back.
    /// `clock` with no arguments is handed out; otherwise the most recently
    /// allocated function of that name gets a new frame at its first
    /// instruction, based where its arguments begin, when their number is its
    /// arity (`E0015` when no function has the name, `E0016` when the number
    /// differs). The caller resumes after the call.
    pub open spec fn invoke_stepped(&self, old: &VirtualMachine, r: Result<Step, Diagnostic>) -> bool {
        let st = old.values();
        let f = old.current();
        &&& r is Ok ==> (r matches Ok(Step::Clock) || r matches Ok(Step::Continue))
        &&& st.len() > f.base && !(st.last() is String) ==> (r matches Err(d) && d.code == ErrorCode::InvalidIdentifier)
        &&& st.len() > f.base && st.last() is String ==> {
            let t = old.memory().strings()[st.last()->String_0.index as int];
            let height = st.len() - 1;
            if old.pending().len() == 0 {
                r matches Err(d) && d.code == ErrorCode::StackUnderflow
            } else {
                let base = old.pending().last() as int;
                if base > height || base < f.base {
                    r matches Err(d) && d.code == ErrorCode::StackUnderflow
                } else if t == clock_name() {
                    if height != base {
                        r matches Err(d) && d.code == ErrorCode::ArityMismatch
                    } else {
                        &&& r == Ok::<Step, Diagnostic>(Step::Clock)
                        &&& self.values() == st.drop_last()
                        &&& self.pending() == old.pending().drop_last()
                        &&& self.call_frames() == with_pc(old.call_frames(), f.pc + 1)
                    }
                } else {
                    match old.memory().named_function(t) {
                        None => r matches Err(d) && d.code == ErrorCode::UnknownFunction,
                        Some(k) => if old.memory().functions()[k].arity != height - base {
                            r matches Err(d) && d.code == ErrorCode::ArityMismatch
                        } else if old.call_frames().len() >= FRAMES_CAPACITY {
                            r matches Err(d) && d.code == ErrorCode::StackOverflow
                        } else {
                            &&& r == Ok::<Step, Diagnostic>(Step::Continue)
                            &&& self.values() == st.drop_last()
                            &&& self.pending() == old.pending().drop_last()
                            &&& self.call_frames() == with_pc(old.call_frames(), f.pc + 1).push(
                                CallFrame { function: Reference { index: k as usize }, pc: 0, base: base as usize },
                            )
                        },
                    }
                }
            }
        }
    }

    /// What `Return` did: the script's return halts; any other frame ends,
    /// the stack is cut back to its base and the result pushed for the caller.
    pub open spec fn return_stepped(&self, old: &VirtualMachine, r: Result<Step, Diagnostic>) -> bool {
        &&& r is Ok ==> (r matches Ok(Step::Halted) || r matches Ok(Step::Continue))
        &&& old.values().len() > old.current().base ==> {
            &&& (r matches Ok(Step::Halted)) <==> old.call_frames().len() == 1
            &&& r is Ok
            &&& old.call_frames().len() > 1 ==> {
                &&& self.call_frames() == old.call_frames().drop_last()
                &&& self.values() == old.values().subrange(0, old.current().base as int).push(old.values().last())
            }
        }
    }
}

/// `p` is what `Print` writes for `v`.
pub open spec fn printed_as(heap: Heap, v: Value, p: Printed) -> bool {
    match v {
        Value::Number(b) => p == Printed::Number(b),
        _ => p matches Printed::Text(t) && printed_text(heap, v) == Some(t@),
    }
}

/// The text that `Print` writes for `v`, before its newline; `None` for a
/// number, which the embedding program formats.
pub open spec fn printed_text(heap: Heap, v: Value) -> Option<Seq<char>> {
    match v {
        Value::Nil => Some(seq!['n', 'i', 'l']),
        Value::Boolean(true) => Some(seq!['t', 'r', 'u', 'e']),
        Value::Boolean(false) => Some(seq!['f', 'a', 'l', 's', 'e']),
        Value::Number(_) => None,
        Value::String(r) => Some(heap.strings()[r.index as int]),
        Value::Function(r) => Some(
            seq!['<', 'f', 'u', 'n', ' '] + heap.functions()[r.index as int].name@ + seq!['>'],
        ),
    }
}

impl VirtualMachine {
    /// `Add`: two numbers are handed out; two strings are concatenated into an
    /// interned string; anything else is `E0009`.
    fn exec_add(&mut self, span: Span) -> (r: Result<Step, Diagnostic>)
        requires
            old(self).wf(),
            !old(self).is_awaiting(),
            old(self).call_frames().len() > 0,
            old(self).current_instruction() is Add,
        ensures
            final(self).kept(old(self), r),
            r matches Err(d) ==> d.span == span,
            final(self).wf(),
            final(self).outcome_ok(r),
            final(self).add_stepped(old(self), r),
    {
        let right = match self.pop_value(span) {
            Ok(v) => v,
            Err(d) => return Err(d),
        };
        let left = match self.pop_value(span) {
            Ok(v) => v,
            Err(d) => return Err(d),
        };
        match (left, right) {
            (Value::Number(a), Value::Number(b)) => {
                self.advance();
                self.awaiting = true;
                Ok(Step::Compute(Numeric::Add(a, b)))
            },
            (Value::String(a), Value::String(b)) => {
                let mut text = self.heap.string(a).clone();
                text.append(self.heap.string(b).as_str());
                let ghost before = *self;
                let c = self.heap.spawn_string(text);
                proof {
                    crate::heap::lemma_growth_keeps_values(&before.heap, &self.heap);
                    assert(values_in(self.memory(), self.values())) by {
                        assert forall|i: int| 0 <= i < self.values().len() implies #[trigger] self.memory().value_in(
                            self.values()[i],
                        ) by {
                            assert(before.memory().value_in(before.values()[i]));
                        }
                    }
                    assert(globals_in(self.memory(), self.global_map())) by {
                        assert forall|k: usize| #[trigger] self.global_map().contains_key(k) implies self.memory().value_in(
                            self.global_map()[k],
                        ) by {
                            assert(before.memory().value_in(before.global_map()[k]));
                        }
                    }
                    assert forall|i: int| 0 <= i < self.call_frames().len() implies #[trigger] frame_fits(
                        self.memory(), self.call_frames()[i], self.values().len()) by {
                        assert(frame_fits(before.memory(), before.call_frames()[i], before.values().len()));
                    }
                }
                self.advance();
                match self.push_value(Value::String(c), span) {
                    Ok(()) => Ok(Step::Continue),
                    Err(d) => Err(d),
                }
            },
            _ => Err(raise(ErrorCode::InvalidAddition, span)),
        }
    }

    /// `Equal`: two numbers are handed out; any other pair is compared here.
    fn exec_equal(&mut self, span: Span) -> (r: Result<Step, Diagnostic>)
        requires
            old(self).wf(),
            !old(self).is_awaiting(),
            old(self).call_frames().len() > 0,
            old(self).current_instruction() is Equal,
        ensures
            final(self).kept(old(self), r),
            r matches Err(d) ==> d.span == span,
            final(self).wf(),
            final(self).outcome_ok(r),
            final(self).global_map() == old(self).global_map(),
            final(self).equal_stepped(old(self), r),
    {
        let right = match self.pop_value(span) {
            Ok(v) => v,
            Err(d) => return Err(d),
        };
        let left = match self.pop_value(span) {
            Ok(v) => v,
            Err(d) => return Err(d),
        };
        self.advance();
        match (left, right) {
            (Value::Number(a), Value::Number(b)) => {
                self.awaiting = true;
                Ok(Step::Compute(Numeric::Equal(a, b)))
            },
            _ => {
                let equal = match (left, right) {
                    (Value::Nil, Value::Nil) => true,
                    (Value::Boolean(x), Value::Boolean(y)) => x == y,
                    (Value::String(x), Value::String(y)) => x.index == y.index,
                    (Value::Function(x), Value::Function(y)) => x.index == y.index,
                    _ => false,
                };
                match self.push_value(Value::Boolean(equal), span) {
                    Ok(()) => {},
                    Err(d) => return Err(d),
                }
                proof {
                    assert(self.values() =~= equal_effect(old(self).values()));
                }
                Ok(Step::Continue)
            },
        }
    }

    /// `DefineGlobal`: pops a name and a value and binds the name, which must
    /// be unbound (`E0011`).
    fn exec_define_global(&mut self, span: Span) -> (r: Result<Step, Diagnostic>)
        requires
            old(self).wf(),
            !old(self).is_awaiting(),
            old(self).call_frames().len() > 0,
            old(self).current_instruction() is DefineGlobal,
        ensures
            final(self).kept(old(self), r),
            r matches Err(d) ==> d.span == span,
            final(self).wf(),
            final(self).outcome_ok(r),
            final(self).define_stepped(old(self), r),
    {
        let name = match self.pop_name(span) {
            Ok(n) => n,
            Err(d) => return Err(d),
        };
        let value = match self.pop_value(span) {
            Ok(v) => v,
            Err(d) => return Err(d),
        };
        if self.globals.contains_key(&name.index) {
            return Err(raise(ErrorCode::MultipleDefinition, span));
        }
        let ghost before = self.global_map();
        self.globals.insert(name.index, value);
        proof {
            assert(self.global_map().dom() =~= before.dom().insert(name.index));
        }
        self.advance();
        Ok(Step::Continue)
    }

    /// `GetGlobal`: pops a name and pushes its value (`E0012` when unbound).
    fn exec_get_global(&mut self, span: Span) -> (r: Result<Step, Diagnostic>)
        requires
            old(self).wf(),
            !old(self).is_awaiting(),
            old(self).call_frames().len() > 0,
            old(self).current_instruction() is GetGlobal,
        ensures
            final(self).kept(old(self), r),
            r matches Err(d) ==> d.span == span,
            final(self).wf(),
            final(self).outcome_ok(r),
            final(self).global_map() == old(self).global_map(),
            final(self).get_global_stepped(old(self), r),
    {
        let name = match self.pop_name(span) {
            Ok(n) => n,
            Err(d) => return Err(d),
        };
        let value = match self.globals.get(&name.index) {
            Some(v) => *v,
            None => return Err(raise(ErrorCode::UndefinedVariable, span)),
        };
        self.advance();
        match self.push_value(value, span) {
            Ok(()) => Ok(Step::Continue),
            Err(d) => Err(d),
        }
    }

    /// `SetGlobal`: pops a name and rebinds it to the value left on top
    /// (`E0012` when unbound).
    fn exec_set_global(&mut self, span: Span) -> (r: Result<Step, Diagnostic>)
        requires
            old(self).wf(),
            !old(self).is_awaiting(),
            old(self).call_frames().len() > 0,
            old(self).current_instruction() is SetGlobal,
        ensures
            final(self).kept(old(self), r),
            r matches Err(d) ==> d.span == span,
            final(self).wf(),
            final(self).outcome_ok(r),
            final(self).set_global_stepped(old(self), r),
    {
        let name = match self.pop_name(span) {
            Ok(n) => n,
            Err(d) => return Err(d),
        };
        let n = self.frames.len();
        let base = self.frames.get(n - 1).base;
        let height = self.stack.len();
        if height <= base {
            return Err(raise(ErrorCode::StackUnderflow, span));
        }
        let value = *self.stack.get(height - 1);
        if !self.globals.contains_key(&name.index) {
            return Err(raise(ErrorCode::UndefinedVariable, span));
        }
        self.globals.insert(name.index, value);
        proof {
            assert(self.memory().value_in(self.values()[height - 1]));
        }
        self.advance();
        Ok(Step::Continue)
    }
}

impl VirtualMachine {
    /// After a request is handed out the machine waits, in a frame, for its
    /// result; after any other outcome it does not wait.
    pub open spec fn outcome_ok(&self, r: Result<Step, Diagnostic>) -> bool {
        match r {
            Ok(Step::Compute(_)) => self.is_awaiting() && self.call_frames().len() > 0,
            Ok(Step::Clock) => self.is_awaiting() && self.call_frames().len() > 0,
            Ok(_) => !self.is_awaiting(),
            Err(_) => true,
        }
    }
}

/// The name of the native clock function.
pub open spec fn clock_name() -> Seq<char> {
    seq!['c', 'l', 'o', 'c', 'k']
}

impl VirtualMachine {
    /// What a step from `old` leaves alone: only `DefineGlobal` and
    /// `SetGlobal` change the globals; only `Add` allocates, and the heap keeps
    /// what it held; only `PrepareInvoke` and `Invoke` change the pending call
    /// bases; and every instruction but a jump, a call or a return, when it
    /// succeeds, moves the frame on to the next instruction.
    pub open spec fn kept(&self, old: &VirtualMachine, r: Result<Step, Diagnostic>) -> bool {
        let ins = old.current_instruction();
        &&& !(ins is DefineGlobal || ins is SetGlobal) ==> self.global_map() == old.global_map()
        &&& !(ins is Add) ==> self.memory() == old.memory()
        &&& self.memory().extends(&old.memory())
        &&& !(ins is PrepareInvoke || ins is Invoke) ==> self.pending() == old.pending()
        &&& r is Ok && !(ins is Jump || ins is JumpIfFalse || ins is Invoke || ins is Return) ==> self.call_frames()
            == with_pc(old.call_frames(), old.current().pc + 1)
    }
}

/// `frames` with the top frame moved to instruction `pc`.
pub open spec fn with_pc(frames: Seq<CallFrame>, pc: int) -> Seq<CallFrame> {
    frames.update(frames.len() - 1, CallFrame { pc: pc as usize, ..frames.last() })
}

/// The two top values of `st` are both numbers.
pub open spec fn top_two_numbers(st: Seq<Value>) -> bool {
    st[st.len() - 2] is Number && st.last() is Number
}

impl VirtualMachine {
    /// What one step from `old` with outcome `r` did to `self`, for the
    /// instructions whose effect stands on the stack, the jumps, local slots,
    /// and globals.
    pub open spec fn stepped(&self, old: &VirtualMachine, r: Result<Step, Diagnostic>) -> bool {
        let f = old.current();
        let st = old.values();
        let frames = old.call_frames();
        let cap = STACK_CAPACITY as int;
        match old.current_instruction() {
            Instruction::Jump(d) => {
                &&& r == Ok::<Step, Diagnostic>(Step::Continue)
                &&& self.values() == st
                &&& self.memory() == old.memory()
                &&& self.call_frames() == with_pc(frames, f.pc + d)
            },
            Instruction::JumpIfFalse(d) => st.len() > f.base ==> {
                &&& r == Ok::<Step, Diagnostic>(Step::Continue)
                &&& self.values() == st
                &&& self.memory() == old.memory()
                &&& self.call_frames() == with_pc(frames, jump_target(f.pc as int, d, !truthy(st.last())))
            },
            Instruction::Pop => {
                &&& st.len() > f.base ==> {
                    &&& r == Ok::<Step, Diagnostic>(Step::Continue)
                    &&& self.values() == st.drop_last()
                    &&& self.call_frames() == with_pc(frames, f.pc + 1)
                }
                &&& st.len() <= f.base ==> (r matches Err(d) && d.code == ErrorCode::StackUnderflow)
            },
            Instruction::Not => st.len() > f.base ==> {
                &&& r == Ok::<Step, Diagnostic>(Step::Continue)
                &&& self.values() == not_effect(st)
                &&& self.call_frames() == with_pc(frames, f.pc + 1)
            },
            Instruction::Equal => self.equal_stepped(old, r),
            Instruction::GetLocal(k) => {
                &&& r is Ok ==> f.base + k < st.len()
                &&& f.base + k >= st.len() ==> (r matches Err(d) && d.code == ErrorCode::StackUnderflow)
                &&& f.base + k < st.len() < cap ==> {
                    &&& r == Ok::<Step, Diagnostic>(Step::Continue)
                    &&& self.values() == st.push(st[f.base + k])
                    &&& self.call_frames() == with_pc(frames, f.pc + 1)
                }
            },
            Instruction::SetLocal(k) => {
                &&& r is Ok ==> f.base + k < st.len()
                &&& f.base + k >= st.len() ==> (r matches Err(d) && d.code == ErrorCode::StackUnderflow)
                &&& f.base + k < st.len() && f.base < st.len() ==> {
                    &&& r == Ok::<Step, Diagnostic>(Step::Continue)
                    &&& self.values() == st.update(f.base + k, st.last())
                    &&& self.call_frames() == with_pc(frames, f.pc + 1)
                }
            },
            Instruction::DefineGlobal => self.define_stepped(old, r),
            Instruction::LoadConstant(i) => st.len() < cap ==> {
                &&& r == Ok::<Step, Diagnostic>(Step::Continue)
                &&& self.values() == st.push(old.memory().functions()[f.function.index as int].chunk.pool()[i as int])
                &&& self.call_frames() == with_pc(frames, f.pc + 1)
            },
            Instruction::True => st.len() < cap ==> {
                &&& r == Ok::<Step, Diagnostic>(Step::Continue)
                &&& self.values() == st.push(Value::Boolean(true))
                &&& self.call_frames() == with_pc(frames, f.pc + 1)
            },
            Instruction::False => st.len() < cap ==> {
                &&& r == Ok::<Step, Diagnostic>(Step::Continue)
                &&& self.values() == st.push(Value::Boolean(false))
                &&& self.call_frames() == with_pc(frames, f.pc + 1)
            },
            Instruction::Nil => st.len() < cap ==> {
                &&& r == Ok::<Step, Diagnostic>(Step::Continue)
                &&& self.values() == st.push(Value::Nil)
                &&& self.call_frames() == with_pc(frames, f.pc + 1)
            },
            Instruction::Print => st.len() > f.base ==> {
                &&& (r matches Ok(Step::Print(p)) && printed_as(old.memory(), st.last(), p))
                &&& self.values() == st.drop_last()
                &&& self.call_frames() == with_pc(frames, f.pc + 1)
            },
            Instruction::Negate => st.len() > f.base ==> match st.last() {
                Value::Number(a) => {
                    &&& r == Ok::<Step, Diagnostic>(Step::Compute(Numeric::Negate(a)))
                    &&& self.values() == st.drop_last()
                },
                _ => r matches Err(d) && d.code == ErrorCode::InvalidArithmetic,
            },
            Instruction::Add => self.add_stepped(old, r),
            Instruction::Subtract => self.numeric_stepped(old, r),
            Instruction::Multiply => self.numeric_stepped(old, r),
            Instruction::Divide => self.numeric_stepped(old, r),
            Instruction::Greater => self.numeric_stepped(old, r),
            Instruction::Less => self.numeric_stepped(old, r),
            Instruction::GetGlobal => self.get_global_stepped(old, r),
            Instruction::SetGlobal => self.set_global_stepped(old, r),
            Instruction::PrepareInvoke => {
                &&& r == Ok::<Step, Diagnostic>(Step::Continue)
                &&& self.values() == st
                &&& self.pending() == old.pending().push(st.len() as usize)
                &&& self.call_frames() == with_pc(frames, f.pc + 1)
            },
            Instruction::Invoke => self.invoke_stepped(old, r),
            Instruction::Return => self.return_stepped(old, r),
        }
    }

    /// Replaces the stack value at `index` with one that lives in the heap.
    fn replace_value(&mut self, index: usize, value: Value)
        requires
            old(self).wf(),
            index < old(self).values().len(),
            old(self).memory().value_in(value),
        ensures
            final(self).wf(),
            final(self).same_but_values(old(self)),
            final(self).values() == old(self).values().update(index as int, value),
    {
        self.stack.set(index, value);
        proof {
            assert forall|i: int| 0 <= i < self.values().len() implies #[trigger] self.memory().value_in(
                self.values()[i],
            ) by {
                if i != index {
                    assert(old(self).memory().value_in(old(self).values()[i]));
                }
            }
            assert forall|i: int| 0 <= i < self.call_frames().len() implies #[trigger] frame_fits(
                self.memory(), self.call_frames()[i], self.values().len()) by {
                assert(frame_fits(old(self).memory(), old(self).call_frames()[i], old(self).values().len()));
            }
        }
    }

    /// `Invoke`: pops the callee's name and calls it. The native `clock` is
    /// handed out; a function of the heap gets a new frame whose base is the
    /// stack height that `PrepareInvoke` recorded, so the arguments are its
    /// first locals (`E0015` when no function has the name, `E0016` when the
    /// number of arguments differs from its arity).
    fn exec_invoke(&mut self, span: Span) -> (r: Result<Step, Diagnostic>)
        requires
            old(self).wf(),
            !old(self).is_awaiting(),
            old(self).call_frames().len() > 0,
            old(self).current_instruction() is Invoke,
        ensures
            final(self).kept(old(self), r),
            r matches Err(d) ==> d.span == span,
            final(self).wf(),
            final(self).outcome_ok(r),
            final(self).invoke_stepped(old(self), r),
    {
        let name = match self.pop_name(span) {
            Ok(n) => n,
            Err(d) => return Err(d),
        };
        let base = match self.pending_bases.pop() {
            Some(b) => b,
            None => return Err(raise(ErrorCode::StackUnderflow, span)),
        };
        let n = self.frames.len();
        let frame_base = self.frames.get(n - 1).base;
        let height = self.stack.len();
        if base > height || base < frame_base {
            return Err(raise(ErrorCode::StackUnderflow, span));
        }
        let count = height - base;
        proof {
            reveal_strlit("clock");
        }
        let clock = String::from_str("clock");
        proof {
            assert(clock@ =~= clock_name());
        }
        if self.heap.string(name).eq(&clock) {
            if count != 0 {
                return Err(raise(ErrorCode::ArityMismatch, span));
            }
            self.advance();
            self.awaiting = true;
            proof {
                assert(self.call_frames() =~= with_pc(old(self).call_frames(), old(self).current().pc + 1));
            }
            return Ok(Step::Clock);
        }
        let callee = match self.heap.find_function(self.heap.string(name)) {
            Some(f) => f,
            None => return Err(raise(ErrorCode::UnknownFunction, span)),
        };
        if self.heap.function(callee).arity != count {
            return Err(raise(ErrorCode::ArityMismatch, span));
        }
        self.advance();
        let ghost before = *self;
        let frame = CallFrame { function: callee, pc: 0, base };
        match self.frames.push(frame, span) {
            Ok(()) => {},
            Err(d) => return Err(d),
        }
        proof {
            assert(self.call_frames() =~= with_pc(old(self).call_frames(), old(self).current().pc + 1).push(frame));
            assert(self.memory().function_ok(self.memory().functions()[callee.index as int]));
            assert forall|i: int| 0 <= i < self.call_frames().len() implies #[trigger] frame_fits(
                self.memory(), self.call_frames()[i], self.values().len()) by {
                if i < before.call_frames().len() {
                    assert(frame_fits(before.memory(), before.call_frames()[i], before.values().len()));
                }
            }
            assert forall|i: int, j: int|
                0 <= i <= j < self.call_frames().len() implies self.call_frames()[i].base
                <= self.call_frames()[j].base by {
                if j < before.call_frames().len() {
                    assert(before.call_frames()[i].base <= before.call_frames()[j].base);
                } else if i < before.call_frames().len() {
                    assert(before.call_frames()[i].base <= before.call_frames()[n - 1].base);
                }
            }
        }
        Ok(Step::Continue)
    }

    /// `Return`: pops the result and ends the current frame. Ending the script
    /// halts the machine; otherwise the stack is cut back to the frame's base
    /// and the result pushed for the caller.
    fn exec_return(&mut self, span: Span) -> (r: Result<Step, Diagnostic>)
        requires
            old(self).wf(),
            !old(self).is_awaiting(),
            old(self).call_frames().len() > 0,
            old(self).current_instruction() is Return,
        ensures
            final(self).kept(old(self), r),
            r matches Err(d) ==> d.span == span,
            final(self).wf(),
            final(self).outcome_ok(r),
            !final(self).is_awaiting(),
            final(self).global_map() == old(self).global_map(),
            final(self).return_stepped(old(self), r),
    {
        let result = match self.pop_value(span) {
            Ok(v) => v,
            Err(d) => return Err(d),
        };
        let ghost before = *self;
        let frame = match self.frames.try_pop() {
            Some(f) => f,
            None => return Ok(Step::Halted),
        };
        if self.frames.len() == 0 {
            return Ok(Step::Halted);
        }
        proof {
            assert(frame_fits(before.memory(), before.call_frames()[before.call_frames().len() - 1], before.values().len()));
        }
        self.stack.truncate(frame.base);
        proof {
            let m = before.call_frames().len() - 1;
            assert forall|i: int| 0 <= i < self.call_frames().len() implies #[trigger] frame_fits(
                self.memory(), self.call_frames()[i], self.values().len()) by {
                assert(frame_fits(before.memory(), before.call_frames()[i], before.values().len()));
                assert(before.call_frames()[i].base <= before.call_frames()[m].base);
            }
            assert forall|i: int, j: int|
                0 <= i <= j < self.call_frames().len() implies self.call_frames()[i].base
                <= self.call_frames()[j].base by {
                assert(before.call_frames()[i].base <= before.call_frames()[j].base);
            }
            assert forall|i: int| 0 <= i < self.values().len() implies #[trigger] self.memory().value_in(
                self.values()[i],
            ) by {
                assert(before.memory().value_in(before.values()[i]));
            }
        }
        match self.push_value(result, span) {
            Ok(()) => {},
            Err(d) => return Err(d),
        }
        proof {
            assert(self.values() =~= old(self).values().subrange(0, old(self).current().base as int).push(
                old(self).values().last(),
            ));
        }
        Ok(Step::Continue)
    }
}

impl VirtualMachine {
    /// Runs the next instruction of the current frame.
    ///
    /// A machine with no frame left has halted and stays so. Work on numbers
    /// and the clock is handed out as `Step::Compute` and `Step::Clock`, and
    /// the machine then waits for `resume`. Any failure is a diagnostic at the
    /// span of the instruction, and ends the run.
    pub fn step(&mut self) -> (r: Result<Step, Diagnostic>)
        requires
            old(self).wf(),
            !old(self).is_awaiting(),
        ensures
            final(self).wf(),
            old(self).call_frames().len() == 0 ==> (r matches Ok(Step::Halted)) && final(self).values()
                == old(self).values(),
            old(self).call_frames().len() > 0 ==> final(self).stepped(old(self), r),
            old(self).call_frames().len() > 0 ==> final(self).kept(old(self), r),
            r matches Err(d) ==> d.span == old(self).instruction_span(),
            final(self).outcome_ok(r),
    {
        let n = self.frames.len();
        if n == 0 {
            return Ok(Step::Halted);
        }
        let frame = *self.frames.get(n - 1);
        let ins = self.current_code_instruction();
        let span = self.current_span();
        proof {
            let f = self.call_frames()[n - 1];
            assert(frame_fits(self.memory(), f, self.values().len()));
            let fun = self.memory().functions()[f.function.index as int];
            assert(self.memory().function_ok(fun));
            assert(crate::instruction::instruction_wf(fun.chunk.code()[f.pc as int], f.pc as int, fun.chunk.pool().len(), fun.chunk.code().len() - 1));
        }
        match ins {
            Instruction::LoadConstant(i) => {
                let value = self.heap.function(frame.function).chunk.constant(i);
                proof {
                    let fun = self.memory().functions()[frame.function.index as int];
                    assert(self.memory().value_in(fun.chunk.pool()[i as int]));
                }
                self.advance();
                match self.push_value(value, span) {
                    Ok(()) => Ok(Step::Continue),
                    Err(d) => Err(d),
                }
            },
            Instruction::Add => self.exec_add(span),
            Instruction::Subtract | Instruction::Multiply | Instruction::Divide
            | Instruction::Greater | Instruction::Less => self.exec_numeric(span),
            Instruction::Negate => {
                match self.pop_value(span) {
                    Ok(Value::Number(bits)) => {
                        self.advance();
                        self.awaiting = true;
                        Ok(Step::Compute(Numeric::Negate(bits)))
                    },
                    Ok(_) => Err(raise(ErrorCode::InvalidArithmetic, span)),
                    Err(d) => Err(d),
                }
            },
            Instruction::Not => {
                let value = match self.pop_value(span) {
                    Ok(v) => v,
                    Err(d) => return Err(d),
                };
                let truth = value.boolean();
                self.advance();
                match self.push_value(Value::Boolean(!truth), span) {
                    Ok(()) => Ok(Step::Continue),
                    Err(d) => Err(d),
                }
            },
            Instruction::Equal => self.exec_equal(span),
            Instruction::True | Instruction::False | Instruction::Nil => {
                let value = match ins {
                    Instruction::True => Value::Boolean(true),
                    Instruction::False => Value::Boolean(false),
                    _ => Value::Nil,
                };
                self.advance();
                match self.push_value(value, span) {
                    Ok(()) => Ok(Step::Continue),
                    Err(d) => Err(d),
                }
            },
            Instruction::Print => {
                let value = match self.pop_value(span) {
                    Ok(v) => v,
                    Err(d) => return Err(d),
                };
                let printed = self.printed(value);
                self.advance();
                Ok(Step::Print(printed))
            },
            Instruction::Pop => {
                match self.pop_value(span) {
                    Ok(_) => {},
                    Err(d) => return Err(d),
                }
                self.advance();
                Ok(Step::Continue)
            },
            Instruction::DefineGlobal => self.exec_define_global(span),
            Instruction::GetGlobal => self.exec_get_global(span),
            Instruction::SetGlobal => self.exec_set_global(span),
            Instruction::GetLocal(k) => {
                let height = self.stack.len();
                if k >= height - frame.base {
                    return Err(raise(ErrorCode::StackUnderflow, span));
                }
                let value = *self.stack.get(frame.base + k);
                proof {
                    assert(self.memory().value_in(self.values()[frame.base + k]));
                }
                self.advance();
                match self.push_value(value, span) {
                    Ok(()) => Ok(Step::Continue),
                    Err(d) => Err(d),
                }
            },
            Instruction::SetLocal(k) => {
                let height = self.stack.len();
                if height <= frame.base || k >= height - frame.base {
                    return Err(raise(ErrorCode::StackUnderflow, span));
                }
                let value = *self.stack.get(height - 1);
                proof {
                    assert(self.memory().value_in(self.values()[height - 1]));
                }
                self.replace_value(frame.base + k, value);
                self.advance();
                Ok(Step::Continue)
            },
            Instruction::JumpIfFalse(offset) => {
                let height = self.stack.len();
                if height <= frame.base {
                    return Err(raise(ErrorCode::StackUnderflow, span));
                }
                if self.stack.get(height - 1).boolean() {
                    self.advance();
                } else {
                    self.set_pc((frame.pc as isize + offset) as usize);
                }
                Ok(Step::Continue)
            },
            Instruction::Jump(offset) => {
                self.set_pc((frame.pc as isize + offset) as usize);
                Ok(Step::Continue)
            },
            Instruction::PrepareInvoke => {
                let height = self.stack.len();
                self.pending_bases.push(height);
                self.advance();
                Ok(Step::Continue)
            },
            Instruction::Invoke => self.exec_invoke(span),
            Instruction::Return => self.exec_return(span),
        }
    }

    /// Hands back the result of the work last handed out: the number or
    /// boolean that `Step::Compute` asked for, or the clock reading. It is
    /// pushed, and the machine runs on.
    pub fn resume(&mut self, value: Value) -> (r: Result<(), Diagnostic>)
        requires
            old(self).wf(),
            old(self).is_awaiting(),
            old(self).call_frames().len() > 0,
            value is Number || value is Boolean,
        ensures
            final(self).wf(),
            !final(self).is_awaiting(),
            final(self).call_frames() == old(self).call_frames(),
            final(self).global_map() == old(self).global_map(),
            old(self).values().len() < STACK_CAPACITY ==> r is Ok && final(self).values() == old(
                self,
            ).values().push(value),
    {
        let span = self.current_span();
        self.awaiting = false;
        self.push_value(value, span)
    }

    /// Whether the script has returned.
    pub fn halted(&self) -> (r: bool)
        ensures
            r == (self.call_frames().len() == 0),
    {
        self.frames.len() == 0
    }

    /// The number of values on the stack.
    pub fn stack_len(&self) -> (r: usize)
        ensures
            r == self.values().len(),
    {
        self.stack.len()
    }

    /// The number of bound globals.
    pub fn globals_len(&self) -> (r: usize)
        ensures
            r == self.global_map().dom().len(),
    {
        self.globals.len()
    }

    /// The heap the machine owns.
    pub fn heap(&self) -> (r: &Heap)
        ensures
            *r == self.memory(),
    {
        &self.heap
    }
}

/// The code that the current frame of `vm` runs can be run.
pub proof fn lemma_current_runnable(vm: &VirtualMachine)
    requires
        vm.wf(),
        vm.call_frames().len() > 0,
    ensures
        vm.memory().functions()[vm.current().function.index as int].chunk.runnable(),
        vm.current().pc < vm.code_of(vm.current()).len(),
{
    let f = vm.current();
    assert(frame_fits(vm.memory(), vm.call_frames()[vm.call_frames().len() - 1], vm.values().len()));
    assert(vm.memory().function_ok(vm.memory().functions()[f.function.index as int]));
}

/// Short-circuit `and`: at the test of `A and B`, a falsy A jumps past B;
/// the stack is left as it was, with A on top.
pub proof fn and_skips_right_operand(
    before: &VirtualMachine,
    after: &VirtualMachine,
    r: Result<Step, Diagnostic>,
    end: int,
)
    requires
        before.wf(),
        before.call_frames().len() > 0,
        crate::compiler::and_shape(before.code_of(before.current()), before.current().pc as int, end),
        before.values().len() > before.current().base,
        !truthy(before.values().last()),
        after.stepped(before, r),
    ensures
        r == Ok::<Step, Diagnostic>(Step::Continue),
        after.values() == before.values(),
        after.call_frames() == with_pc(before.call_frames(), end),
{
    lemma_current_runnable(before);
}

/// Short-circuit `or`: at the test of `A or B`, a truthy A takes two steps to
/// pass B; the stack is left as it was, with A on top.
pub proof fn or_skips_right_operand(
    before: &VirtualMachine,
    middle: &VirtualMachine,
    r1: Result<Step, Diagnostic>,
    after: &VirtualMachine,
    r2: Result<Step, Diagnostic>,
    end: int,
)
    requires
        before.wf(),
        before.call_frames().len() > 0,
        crate::compiler::or_shape(before.code_of(before.current()), before.current().pc as int, end),
        before.values().len() > before.current().base,
        truthy(before.values().last()),
        middle.stepped(before, r1),
        middle.wf(),
        after.stepped(middle, r2),
    ensures
        r1 == Ok::<Step, Diagnostic>(Step::Continue),
        r2 == Ok::<Step, Diagnostic>(Step::Continue),
        after.values() == before.values(),
        after.call_frames() == with_pc(before.call_frames(), end),
{
    lemma_current_runnable(before);
    let pc = before.current().pc as int;
    assert(middle.call_frames() == with_pc(before.call_frames(), pc + 1));
    assert(middle.current_instruction() == before.code_of(before.current())[pc + 1]);
    assert(after.call_frames() =~= with_pc(before.call_frames(), end));
}

/// `A and B` with a truthy A: two steps drop A and reach the start of B.
pub proof fn and_evaluates_right_operand(
    before: &VirtualMachine,
    middle: &VirtualMachine,
    r1: Result<Step, Diagnostic>,
    after: &VirtualMachine,
    r2: Result<Step, Diagnostic>,
    end: int,
)
    requires
        before.wf(),
        before.call_frames().len() > 0,
        crate::compiler::and_shape(before.code_of(before.current()), before.current().pc as int, end),
        before.values().len() > before.current().base,
        truthy(before.values().last()),
        middle.stepped(before, r1),
        middle.wf(),
        after.stepped(middle, r2),
    ensures
        r1 == Ok::<Step, Diagnostic>(Step::Continue),
        r2 == Ok::<Step, Diagnostic>(Step::Continue),
        after.values() == before.values().drop_last(),
        after.call_frames() == with_pc(before.call_frames(), before.current().pc + 2),
{
    lemma_current_runnable(before);
    let pc = before.current().pc as int;
    assert(middle.call_frames() == with_pc(before.call_frames(), pc + 1));
    assert(middle.current_instruction() == before.code_of(before.current())[pc + 1]);
    assert(after.call_frames() =~= with_pc(before.call_frames(), pc + 2));
}

/// `A or B` with a falsy A: two steps drop A and reach the start of B.
pub proof fn or_evaluates_right_operand(
    before: &VirtualMachine,
    middle: &VirtualMachine,
    r1: Result<Step, Diagnostic>,
    after: &VirtualMachine,
    r2: Result<Step, Diagnostic>,
    end: int,
)
    requires
        before.wf(),
        before.call_frames().len() > 0,
        crate::compiler::or_shape(before.code_of(before.current()), before.current().pc as int, end),
        before.values().len() > before.current().base,
        !truthy(before.values().last()),
        middle.stepped(before, r1),
        middle.wf(),
        after.stepped(middle, r2),
    ensures
        r1 == Ok::<Step, Diagnostic>(Step::Continue),
        r2 == Ok::<Step, Diagnostic>(Step::Continue),
        after.values() == before.values().drop_last(),
        after.call_frames() == with_pc(before.call_frames(), before.current().pc + 3),
{
    lemma_current_runnable(before);
    let pc = before.current().pc as int;
    assert(middle.call_frames() == with_pc(before.call_frames(), pc + 2));
    assert(middle.current_instruction() == before.code_of(before.current())[pc + 2]);
    assert(after.call_frames() =~= with_pc(before.call_frames(), pc + 3));
}

/// `!=` is the negation of `==`: `Not` on the boolean that `Equal` left
/// pushes its negation, whatever the pair compared.
pub proof fn not_negates_equality(stack: Seq<Value>, equal: bool)
    ensures
        not_effect(stack.push(Value::Boolean(equal))) == stack.push(Value::Boolean(!equal)),
{
    assert(stack.push(Value::Boolean(equal)).drop_last() =~= stack);
}

/// `!=` on a pair that is not two numbers, run as `Equal` then `Not`, leaves
/// the negation of `values_equal`.
pub proof fn not_equal_negates_values_equal(stack: Seq<Value>)
    requires
        stack.len() >= 2,
    ensures
        not_effect(equal_effect(stack)) == stack.drop_last().drop_last().push(
            Value::Boolean(!values_equal(stack[stack.len() - 2], stack.last())),
        ),
{
    not_negates_equality(stack.drop_last().drop_last(), values_equal(stack[stack.len() - 2], stack.last()));
}

/// A `DefineGlobal` that succeeds binds exactly one new name.
pub proof fn define_global_adds_one_key(before: &VirtualMachine, after: &VirtualMachine, r: Result<Step, Diagnostic>)
    requires
        before.wf(),
        before.call_frames().len() > 0,
        before.current_instruction() is DefineGlobal,
        before.values().len() >= before.current().base + 2,
        after.stepped(before, r),
        r is Ok,
    ensures
        after.global_map().dom().len() == before.global_map().dom().len() + 1,
        exists|k: usize|
            !before.global_map().contains_key(k) && after.global_map().dom() == before.global_map().dom().insert(k),
{
    let st = before.values();
    if let Value::String(n) = st.last() {
        assert(after.global_map().dom() =~= before.global_map().dom().insert(n.index));
    }
}
} // verus!
