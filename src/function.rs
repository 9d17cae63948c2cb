use vstd::prelude::*;
use crate::chunk::{Chunk, ChunkBuilder};

verus! {

/// A function under construction.
pub struct FunctionBuilder {
    pub arity: usize,
    pub chunk: ChunkBuilder,
    pub name: String,
}

impl FunctionBuilder {
    pub fn new() -> (r: FunctionBuilder)
        ensures
            r.arity == 0,
            r.chunk.wf(),
            r.chunk.instructions@.len() == 0,
            r.chunk.constants@.len() == 0,
            r.name@.len() == 0,
    {
        FunctionBuilder { arity: 0, chunk: ChunkBuilder::new(), name: String::new() }
    }

    pub fn build(self) -> (r: Function)
        ensures
            r.arity == self.arity,
            r.name@ == self.name@,
            r.chunk.code() == self.chunk.instructions@,
            r.chunk.span_list() == self.chunk.spans@,
            r.chunk.pool() == self.chunk.constants@,
    {
        Function { arity: self.arity, chunk: self.chunk.build(), name: self.name }
    }
}

/// An immutable function: its name, its number of parameters and its code.
pub struct Function {
    pub arity: usize,
    pub chunk: Chunk,
    pub name: String,
}

impl Function {
    pub fn arity(&self) -> (r: usize)
        ensures
            r == self.arity,
    {
        self.arity
    }

    pub fn chunk(&self) -> (r: &Chunk)
        ensures
            r == &self.chunk,
    {
        &self.chunk
    }

    pub fn name(&self) -> (r: &String)
        ensures
            r@ == self.name@,
    {
        &self.name
    }
}

} // verus!
