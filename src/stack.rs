use vstd::prelude::*;
use crate::diagnostic::{Diagnostic, ErrorCode, raise};
use crate::span::Span;

verus! {

/// A stack that holds at most `N` elements; pushing onto a full stack is an
/// overflow (`E0006`) and popping an empty one an underflow (`E0007`).
pub struct Stack<T, const N: usize> {
    data: Vec<T>,
}

impl<T, const N: usize> View for Stack<T, N> {
    type V = Seq<T>;

    closed spec fn view(&self) -> Seq<T> {
        self.data@
    }
}

impl<T, const N: usize> Stack<T, N> {
    /// No more than `N` elements.
    pub open spec fn wf(&self) -> bool {
        self@.len() <= N
    }

    pub fn new() -> (r: Self)
        ensures
            r@ == Seq::<T>::empty(),
            r.wf(),
    {
        Stack { data: Vec::new() }
    }

    pub fn len(&self) -> (r: usize)
        ensures
            r == self@.len(),
    {
        self.data.len()
    }

    /// Pushes `element`, or reports an overflow at `span` when the stack is full.
    pub fn push(&mut self, element: T, span: Span) -> (r: Result<(), Diagnostic>)
        requires
            old(self).wf(),
        ensures
            final(self).wf(),
            old(self)@.len() < N ==> r is Ok && final(self)@ == old(self)@.push(element),
            old(self)@.len() >= N ==> final(self)@ == old(self)@ && (r matches Err(d) && d.code
                == ErrorCode::StackOverflow && d.span == span),
    {
        if self.data.len() < N {
            self.data.push(element);
            Ok(())
        } else {
            Err(raise(ErrorCode::StackOverflow, span))
        }
    }

    /// Removes and returns the top element, if any.
    pub fn try_pop(&mut self) -> (r: Option<T>)
        requires
            old(self).wf(),
        ensures
            final(self).wf(),
            old(self)@.len() == 0 ==> r is None && final(self)@ == old(self)@,
            old(self)@.len() > 0 ==> r == Some(old(self)@.last()) && final(self)@ == old(
                self,
            )@.drop_last(),
    {
        self.data.pop()
    }

    /// Removes and returns the top element, or reports an underflow at `span`.
    pub fn pop(&mut self, span: Span) -> (r: Result<T, Diagnostic>)
        requires
            old(self).wf(),
        ensures
            final(self).wf(),
            old(self)@.len() == 0 ==> final(self)@ == old(self)@ && (r matches Err(d) && d.code
                == ErrorCode::StackUnderflow && d.span == span),
            old(self)@.len() > 0 ==> r == Ok::<T, Diagnostic>(old(self)@.last()) && final(self)@
                == old(self)@.drop_last(),
    {
        match self.data.pop() {
            Some(v) => Ok(v),
            None => Err(raise(ErrorCode::StackUnderflow, span)),
        }
    }

    /// The element at `index`, counted from the bottom.
    pub fn get(&self, index: usize) -> (r: &T)
        requires
            index < self@.len(),
        ensures
            *r == self@[index as int],
    {
        &self.data[index]
    }

    /// Replaces the element at `index`, counted from the bottom.
    pub fn set(&mut self, index: usize, element: T)
        requires
            old(self).wf(),
            index < old(self)@.len(),
        ensures
            final(self).wf(),
            final(self)@ == old(self)@.update(index as int, element),
    {
        self.data.set(index, element);
    }

    /// Drops every element above the first `len`.
    pub fn truncate(&mut self, len: usize)
        requires
            old(self).wf(),
            len <= old(self)@.len(),
        ensures
            final(self).wf(),
            final(self)@ == old(self)@.subrange(0, len as int),
    {
        self.data.truncate(len);
    }
}

} // verus!
