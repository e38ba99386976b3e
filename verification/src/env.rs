//! Lexically scoped environments.
//!
//! An `Env` holds the local frames of one function activation as one flat
//! binding stack plus the start index of each frame; every frame of the
//! activation is visible to lookups, inner bindings shadowing outer ones.
//! Each function call evaluates its body in a fresh `Env`, so callee code
//! never sees caller locals; the run's globals are threaded separately.

use vstd::prelude::*;
use vstd::pervasive::VecAdditionalExecFns;
use crate::value::Value;
use crate::value::str_eq;

verus! {

/// Find the value bound to `name` in a binding stack, innermost last.
pub open spec fn frame_lookup(s: Seq<(String, Value)>, name: Seq<char>) -> Option<Value>
    decreases s.len(),
{
    if s.len() == 0 {
        Option::None
    } else if s.last().0@ == name {
        Option::Some(s.last().1)
    } else {
        frame_lookup(s.drop_last(), name)
    }
}

/// The index of the innermost binding of `name`, meaningful when one exists.
pub open spec fn last_index_of(s: Seq<(String, Value)>, name: Seq<char>) -> int
    decreases s.len(),
{
    if s.len() == 0 {
        -1
    } else if s.last().0@ == name {
        s.len() - 1
    } else {
        last_index_of(s.drop_last(), name)
    }
}

/// Look up a name in a binding stack, innermost binding first.
pub fn lookup_bindings(bindings: &Vec<(String, Value)>, name: &String) -> (r: Option<Value>)
    ensures
        r == frame_lookup(bindings@, name@),
{
    let mut i = bindings.len();
    proof {
        assert(bindings@.take(i as int) =~= bindings@);
    }
    while i > 0
        invariant
            i <= bindings@.len(),
            frame_lookup(bindings@.take(i as int), name@) == frame_lookup(bindings@, name@),
        decreases i,
    {
        i = i - 1;
        if str_eq(&bindings[i].0, name) {
            proof {
                assert(bindings@.take(i as int + 1).last() == bindings@[i as int]);
            }
            return Option::Some(bindings[i].1.clone());
        }
        proof {
            assert(bindings@.take(i as int + 1).last() == bindings@[i as int]);
            assert(bindings@.take(i as int + 1).drop_last() =~= bindings@.take(i as int));
        }
    }
    Option::None
}

/// The local frames of one activation.
#[derive(Debug)]
pub struct Env {
    pub bindings: Vec<(String, Value)>,
    pub starts: Vec<usize>,
}

impl Env {
    /// Frame starts are ordered and never point past the binding stack.
    pub open spec fn wf(&self) -> bool {
        &&& forall|i: int|
            0 <= i < self.starts@.len() ==> self.starts@[i] <= self.bindings@.len()
        &&& forall|i: int, j: int|
            0 <= i <= j < self.starts@.len() ==> self.starts@[i] <= self.starts@[j]
    }

    /// An activation starts with one empty frame.
    pub fn new_activation() -> (r: Env)
        ensures
            r.wf(),
            r.bindings@.len() == 0,
            r.starts@.len() == 1,
    {
        let mut starts: Vec<usize> = Vec::new();
        starts.push(0);
        Env { bindings: Vec::new(), starts }
    }

    /// Open a frame.
    pub fn push_frame(&mut self)
        requires
            old(self).wf(),
        ensures
            final(self).wf(),
            final(self).bindings == old(self).bindings,
            final(self).starts@ == old(self).starts@.push(old(self).bindings@.len() as usize),
    {
        let n = self.bindings.len();
        self.starts.push(n);
    }

    /// Close the innermost frame, dropping its bindings.
    pub fn pop_frame(&mut self)
        requires
            old(self).wf(),
            old(self).starts@.len() > 0,
        ensures
            final(self).wf(),
            final(self).starts@ == old(self).starts@.drop_last(),
            final(self).bindings@ == old(self).bindings@.take(old(self).starts@.last() as int),
    {
        let s = self.starts.pop().unwrap();
        self.bindings.truncate(s);
    }

    /// Bind a name in the innermost frame, shadowing any outer binding.
    pub fn bind(&mut self, name: String, v: Value)
        requires
            old(self).wf(),
        ensures
            final(self).wf(),
            final(self).starts == old(self).starts,
            final(self).bindings@ == old(self).bindings@.push((name, v)),
    {
        self.bindings.push((name, v));
    }

    /// Look up a name, innermost binding first.
    pub fn lookup(&self, name: &String) -> (r: Option<Value>)
        ensures
            r == frame_lookup(self.bindings@, name@),
    {
        lookup_bindings(&self.bindings, name)
    }

    /// Overwrite the innermost binding of `name` with `v`; reports whether
    /// one was found.  The caller decides what an assignment to an unbound
    /// name does.
    pub fn assign(&mut self, name: &String, v: Value) -> (r: bool)
        requires
            old(self).wf(),
        ensures
            final(self).wf(),
            final(self).starts == old(self).starts,
            r == (frame_lookup(old(self).bindings@, name@) is Some),
            !r ==> final(self).bindings == old(self).bindings,
            r ==> {
                let j = last_index_of(old(self).bindings@, name@);
                &&& 0 <= j < old(self).bindings@.len()
                &&& old(self).bindings@[j].0@ == name@
                &&& final(self).bindings@ == old(self).bindings@.update(
                    j,
                    (old(self).bindings@[j].0, v),
                )
            },
    {
        let mut i = self.bindings.len();
        proof {
            assert(self.bindings@.take(i as int) =~= self.bindings@);
        }
        while i > 0
            invariant
                self == old(self),
                self.wf(),
                i <= self.bindings@.len(),
                frame_lookup(self.bindings@.take(i as int), name@) == frame_lookup(
                    self.bindings@,
                    name@,
                ),
                last_index_of(self.bindings@.take(i as int), name@) == last_index_of(
                    self.bindings@,
                    name@,
                ),
            decreases i,
        {
            i = i - 1;
            proof {
                assert(self.bindings@.take(i as int + 1).last() == self.bindings@[i as int]);
                assert(self.bindings@.take(i as int + 1).drop_last() =~= self.bindings@.take(
                    i as int,
                ));
            }
            if str_eq(&self.bindings[i].0, name) {
                proof {
                    assert(last_index_of(self.bindings@.take(i as int + 1), name@) == i as int);
                    assert(last_index_of(self.bindings@, name@) == i as int);
                }
                let nm = self.bindings[i].0.clone();
                self.bindings.set(i, (nm, v));
                proof {
                    assert(self.wf());
                }
                return true;
            }
        }
        false
    }
}

} // verus!
