use vstd::prelude::*;
use crate::function::Function;
use crate::value::{Reference, Value};

verus! {

/// The contents of `strings` are pairwise distinct.
pub open spec fn interned(strings: Seq<Seq<char>>) -> bool {
    forall|i: int, j: int|
        0 <= i < strings.len() && 0 <= j < strings.len() && i != j ==> strings[i] != strings[j]
}

/// Owner of every runtime allocation: strings, interned by content, and functions.
///
/// Allocations live as long as the heap and are dropped with it, each once.
pub struct Heap {
    strings: Vec<String>,
    functions: Vec<Function>,
}

impl Heap {
    /// The contents of the string allocations, in the order they were made.
    pub closed spec fn strings(&self) -> Seq<Seq<char>> {
        self.strings@.map_values(|s: String| s@)
    }

    /// The function allocations, in the order they were made.
    pub closed spec fn functions(&self) -> Seq<Function> {
        self.functions@
    }

    /// No two string allocations hold the same content, and every function
    /// allocation can be run and refers only to allocations of this heap.
    pub open spec fn wf(&self) -> bool {
        &&& interned(self.strings())
        &&& forall|k: int|
            0 <= k < self.functions().len() ==> #[trigger] self.function_ok(self.functions()[k])
    }

    /// `v` refers to no allocation outside this heap.
    pub open spec fn value_in(&self, v: Value) -> bool {
        match v {
            Value::String(r) => self.holds_string(r),
            Value::Function(r) => self.holds_function(r),
            _ => true,
        }
    }

    /// Every value of `pool` refers only to allocations of this heap.
    pub open spec fn pool_in(&self, pool: Seq<Value>) -> bool {
        forall|i: int| 0 <= i < pool.len() ==> #[trigger] self.value_in(pool[i])
    }

    /// `f` can be run against this heap.
    pub open spec fn function_ok(&self, f: Function) -> bool {
        f.chunk.runnable() && self.pool_in(f.chunk.pool())
    }

    /// This heap holds every allocation of `old`, unchanged.
    pub open spec fn extends(&self, old: &Heap) -> bool {
        &&& old.strings().len() <= self.strings().len()
        &&& forall|k: int| 0 <= k < old.strings().len() ==> #[trigger] self.strings()[k] == old.strings()[k]
        &&& old.functions().len() <= self.functions().len()
        &&& forall|k: int|
            0 <= k < old.functions().len() ==> #[trigger] self.functions()[k] == old.functions()[k]
    }

    pub fn new() -> (r: Heap)
        ensures
            r.wf(),
            r.strings().len() == 0,
            r.functions().len() == 0,
    {
        let r = Heap { strings: Vec::new(), functions: Vec::new() };
        proof {
            assert(r.strings().len() == 0);
        }
        r
    }

    /// Allocates `function` and returns its handle.
    pub fn spawn(&mut self, function: Function) -> (r: Reference)
        requires
            old(self).wf(),
            old(self).function_ok(function),
        ensures
            final(self).wf(),
            final(self).extends(old(self)),
            final(self).strings() == old(self).strings(),
            final(self).functions() == old(self).functions().push(function),
            r.index == old(self).functions().len(),
    {
        let index = self.functions.len();
        self.functions.push(function);
        proof {
            lemma_growth_keeps_values(old(self), self);
            assert forall|k: int| 0 <= k < self.functions().len() implies #[trigger] self.function_ok(
                self.functions()[k],
            ) by {
                if k < old(self).functions().len() {
                    assert(old(self).function_ok(old(self).functions()[k]));
                }
            }
        }
        Reference { index }
    }

    /// The handle of the string allocation holding `value`, allocating it only
    /// when no allocation holds that content yet.
    pub fn spawn_string(&mut self, value: String) -> (r: Reference)
        requires
            old(self).wf(),
        ensures
            final(self).wf(),
            final(self).extends(old(self)),
            r.index < final(self).strings().len(),
            final(self).strings()[r.index as int] == value@,
            old(self).strings().contains(value@) ==> final(self).strings() == old(self).strings(),
            !old(self).strings().contains(value@) ==> final(self).strings() == old(
                self,
            ).strings().push(value@),
            final(self).functions() == old(self).functions(),
    {
        let mut i: usize = 0;
        while i < self.strings.len()
            invariant
                self.wf(),
                *self == *old(self),
                i <= self.strings@.len(),
                forall|j: int| 0 <= j < i ==> self.strings()[j] != value@,
            decreases self.strings@.len() - i,
        {
            if self.strings[i] == value {
                proof {
                    assert(self.strings()[i as int] == value@);
                    assert(self.strings().contains(value@));
                }
                return Reference { index: i };
            }
            i = i + 1;
        }
        proof {
            assert(!self.strings().contains(value@)) by {
                if self.strings().contains(value@) {
                    let j = choose|j: int| 0 <= j < self.strings().len() && self.strings()[j] == value@;
                    assert(self.strings()[j] != value@);
                }
            }
        }
        let index = self.strings.len();
        self.strings.push(value);
        proof {
            assert(self.strings() =~= old(self).strings().push(value@));
            lemma_growth_keeps_values(old(self), self);
            assert forall|k: int| 0 <= k < self.functions().len() implies #[trigger] self.function_ok(
                self.functions()[k],
            ) by {
                assert(old(self).function_ok(old(self).functions()[k]));
            }
        }
        Reference { index }
    }

    /// Whether `r` names a string allocation of this heap.
    pub open spec fn holds_string(&self, r: Reference) -> bool {
        r.index < self.strings().len()
    }

    /// Whether `r` names a function allocation of this heap.
    pub open spec fn holds_function(&self, r: Reference) -> bool {
        r.index < self.functions().len()
    }

    /// The string that `r` names.
    pub fn string(&self, r: Reference) -> (s: &String)
        requires
            self.holds_string(r),
        ensures
            s@ == self.strings()[r.index as int],
    {
        &self.strings[r.index]
    }

    /// The function that `r` names.
    pub fn function(&self, r: Reference) -> (f: &Function)
        requires
            self.holds_function(r),
        ensures
            *f == self.functions()[r.index as int],
    {
        &self.functions[r.index]
    }

    /// The index of the most recently allocated function named `name`, if any.
    pub open spec fn named_function(&self, name: Seq<char>) -> Option<int> {
        last_named(self.functions(), name)
    }

    /// The most recently allocated function named `name`, if any.
    pub fn find_function(&self, name: &String) -> (r: Option<Reference>)
        ensures
            r matches Some(f) ==> self.named_function(name@) == Some(f.index as int),
            r is None ==> self.named_function(name@) is None,
            r matches Some(f) ==> {
                &&& self.holds_function(f)
                &&& self.functions()[f.index as int].name@ == name@
                &&& forall|k: int|
                    f.index < k < self.functions().len() ==> #[trigger] self.functions()[k].name@
                        != name@
            },
            r is None ==> forall|k: int|
                0 <= k < self.functions().len() ==> #[trigger] self.functions()[k].name@ != name@,
    {
        proof {
            lemma_last_named(self.functions(), name@);
        }
        let mut i: usize = self.functions.len();
        while i > 0
            invariant
                i <= self.functions@.len(),
                forall|k: int|
                    i <= k < self.functions().len() ==> #[trigger] self.functions()[k].name@
                        != name@,
                last_named(self.functions(), name@) matches Some(k) ==> 0 <= k < self.functions().len()
                    && self.functions()[k].name@ == name@ && forall|j: int|
                    k < j < self.functions().len() ==> #[trigger] self.functions()[j].name@ != name@,
                last_named(self.functions(), name@) is None ==> forall|j: int|
                    0 <= j < self.functions().len() ==> #[trigger] self.functions()[j].name@ != name@,
            decreases i,
        {
            if self.functions[i - 1].name == *name {
                return Some(Reference { index: i - 1 });
            }
            i = i - 1;
        }
        None
    }
}

/// The index of the last of `fs` named `name`, if any.
pub open spec fn last_named(fs: Seq<Function>, name: Seq<char>) -> Option<int>
    decreases fs.len(),
{
    if fs.len() == 0 {
        None
    } else if fs.last().name@ == name {
        Some(fs.len() - 1)
    } else {
        last_named(fs.drop_last(), name)
    }
}

/// `last_named` finds the last function so named, and nothing when none is.
pub proof fn lemma_last_named(fs: Seq<Function>, name: Seq<char>)
    ensures
        last_named(fs, name) matches Some(k) ==> 0 <= k < fs.len() && fs[k].name@ == name && forall|j: int|
            k < j < fs.len() ==> #[trigger] fs[j].name@ != name,
        last_named(fs, name) is None ==> forall|j: int| 0 <= j < fs.len() ==> #[trigger] fs[j].name@ != name,
    decreases fs.len(),
{
    if fs.len() > 0 && fs.last().name@ != name {
        lemma_last_named(fs.drop_last(), name);
        assert forall|j: int| 0 <= j < fs.len() - 1 implies fs.drop_last()[j] == #[trigger] fs[j] by {}
    }
}

/// What refers only to allocations of `old` refers only to allocations of a
/// heap that extends it.
pub proof fn lemma_growth_keeps_values(old: &Heap, new: &Heap)
    requires
        new.extends(old),
    ensures
        forall|v: Value| old.value_in(v) ==> #[trigger] new.value_in(v),
        forall|p: Seq<Value>| old.pool_in(p) ==> #[trigger] new.pool_in(p),
        forall|f: Function| old.function_ok(f) ==> #[trigger] new.function_ok(f),
{
    assert forall|p: Seq<Value>| old.pool_in(p) implies #[trigger] new.pool_in(p) by {
        assert forall|i: int| 0 <= i < p.len() implies #[trigger] new.value_in(p[i]) by {
            assert(old.value_in(p[i]));
        }
    }
}

/// Interning: two string handles of a heap with equal contents are the same handle.
pub proof fn equal_contents_share_handle(heap: &Heap, a: Reference, b: Reference)
    requires
        heap.wf(),
        heap.holds_string(a),
        heap.holds_string(b),
        heap.strings()[a.index as int] == heap.strings()[b.index as int],
    ensures
        a == b,
{
}


/// Interning across calls: handles that an earlier heap and a later one
/// (which extends it) give for equal contents are the same handle.
pub proof fn interned_handles_agree(earlier: &Heap, a: Reference, later: &Heap, b: Reference)
    requires
        later.wf(),
        later.extends(earlier),
        earlier.holds_string(a),
        later.holds_string(b),
        earlier.strings()[a.index as int] == later.strings()[b.index as int],
    ensures
        a == b,
{
    assert(later.strings()[a.index as int] == earlier.strings()[a.index as int]);
}
} // verus!
