//! The private garbage-collected arena of one environment, reduced to the
//! record of the collection passes it was asked to run.

use vstd::prelude::*;
use vstd::string::StringExecFns;
use crate::value::ListRef;

verus! {

/// One collection pass run on a heap.
#[derive(Clone, Copy, Debug, PartialEq, Eq, Structural)]
pub enum GcPass {
    /// A reachability trace started from this many roots.
    Full { roots: usize },
    /// A pass without tracing; storage goes when the heap is dropped.
    Weak,
}

/// A private arena of an environment.
#[derive(Debug)]
pub struct Heap {
    pub name: String,
    pub passes: Vec<GcPass>,
}

impl Heap {
    /// A fresh arena named `name` on which no pass has run.
    pub fn new(name: &str) -> (r: Heap)
        ensures
            r.name@ == name@,
            r.passes@.len() == 0,
    {
        Heap { name: String::from_str(name), passes: Vec::new() }
    }

    /// Traces from `roots` and reclaims everything they do not reach.
    pub fn collect(&mut self, roots: &Vec<ListRef>)
        ensures
            final(self).name == old(self).name,
            final(self).passes@ == old(self).passes@.push(GcPass::Full { roots: roots@.len() as usize }),
    {
        self.passes.push(GcPass::Full { roots: roots.len() });
    }

    /// Runs the cheap pass that does not trace.
    pub fn collect_weak(&mut self)
        ensures
            final(self).name == old(self).name,
            final(self).passes@ == old(self).passes@.push(GcPass::Weak),
    {
        self.passes.push(GcPass::Weak);
    }

    /// A copy of this record.
    pub fn duplicate(&self) -> (r: Heap)
        ensures
            r.name == self.name,
            r.passes@ == self.passes@,
    {
        let mut passes: Vec<GcPass> = Vec::new();
        let mut i: usize = 0;
        while i < self.passes.len()
            invariant
                i <= self.passes@.len(),
                passes@ == self.passes@.subrange(0, i as int),
            decreases self.passes@.len() - i,
        {
            passes.push(self.passes[i]);
            i = i + 1;
            assert(passes@ =~= self.passes@.subrange(0, i as int));
        }
        assert(passes@ =~= self.passes@);
        Heap { name: self.name.clone(), passes }
    }
}

} // verus!
