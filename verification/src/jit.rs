//! The hook points through which a tracing JIT may substitute native
//! execution for interpretation.
//!
//! The interpreter consults the hook at three fixed points: each time a
//! loop-start instruction retires, at the entry of a call whose actuals are
//! all numbers, and after every user-function return. A hook that takes
//! over a call must return its numeric result; one that takes over a loop
//! returns the program counter at which interpretation resumes. The no-op
//! hook interprets everything.

use vstd::prelude::*;

use crate::number::Number;
use crate::value::Value;

verus! {

/// The interpreter's view of a tracing JIT.
pub trait JitHook {
    /// Consulted when a loop-start instruction at `pc` retires in function
    /// `func_id`, with `loop_end` the offset just past the loop. A returned
    /// program counter makes the interpreter resume there; `None` continues
    /// normal interpretation.
    fn loop_hook(&mut self, func_id: usize, pc: usize, loop_end: usize) -> Option<usize>;

    /// Consulted at the entry of a call of function `func_id` whose actuals
    /// are all the given numbers. A returned number is the call's result,
    /// computed natively; the activation is then skipped entirely. A hook
    /// may only do this for a function it has compiled to a specialization
    /// whose observable behaviour matches interpretation.
    fn call_hook(&mut self, func_id: usize, args: &Vec<Number>) -> Option<Number>;

    /// Records the dynamic type of the value function `func_id` just
    /// returned, so the hook can stabilize its type profile.
    fn record_return(&mut self, func_id: usize, v: &Value);
}

/// The hook that never takes over: every loop and call is interpreted.
pub struct NoJit {
}

impl JitHook for NoJit {
    fn loop_hook(&mut self, func_id: usize, pc: usize, loop_end: usize) -> (r: Option<usize>)
        ensures
            r is None,
    {
        None
    }

    fn call_hook(&mut self, func_id: usize, args: &Vec<Number>) -> (r: Option<Number>)
        ensures
            r is None,
    {
        None
    }

    fn record_return(&mut self, func_id: usize, v: &Value) {
    }
}

} // verus!
