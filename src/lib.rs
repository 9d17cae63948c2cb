//! A bytecode compiler and stack virtual machine for a small Lox dialect.
//!
//! The library parses tokens into a declaration syntax tree (`parser`), lowers
//! it into stack-machine bytecode (`compiler`), describes that bytecode
//! (`instruction`, `chunk`, `function`), owns runtime allocations with string
//! interning (`heap`), and executes the bytecode one instruction at a time
//! (`vm`). Floating-point arithmetic and the wall clock are left to the
//! embedding program: the machine hands such work out as a request and takes
//! the result back.

pub mod ast;
pub mod chunk;
pub mod compiler;
pub mod diagnostic;
pub mod function;
pub mod heap;
pub mod instruction;
pub mod lowering;
pub mod parser;
pub mod span;
pub mod stack;
pub mod token;
pub mod value;
pub mod vm;

pub use ast::{BinaryOperator, Declaration, Expression, ForLoopInitializer, Literal, Statement, UnaryOperator};
pub use chunk::{Backpatch, Backpatcher, Chunk, ChunkBuilder, JumpKind};
pub use compiler::compile;
pub use diagnostic::{Diagnostic, ErrorCode, raise};
pub use function::{Function, FunctionBuilder};
pub use heap::Heap;
pub use instruction::Instruction;
pub use parser::{Parser, parse};
pub use span::{Span, Spanned};
pub use stack::Stack;
pub use token::{InfixPrecedence, Lexeme, LexemeKind, Token};
pub use value::{Reference, Value};
pub use vm::{CallFrame, Numeric, Printed, Step, VirtualMachine};
