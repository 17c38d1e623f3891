//! The session: the error flags a run accumulates, and the lazily created
//! evaluator that carries them.

use vstd::prelude::*;
use crate::interpreter::Interpreter;
use crate::parser::Parser;

verus! {

/// An execution session: whether a syntax or lexical error and whether a
/// runtime error have occurred, and the session's evaluator once created.
pub struct Taco {
    pub has_error: bool,
    pub has_runtime_error: bool,
    pub interpreter: Option<Interpreter>,
    pub parser: Option<Parser>,
}

impl Taco {
    /// A fresh session with no errors recorded.
    pub fn new() -> (r: Taco)
        ensures
            !r.has_error,
            !r.has_runtime_error,
            r.interpreter is None,
            r.parser is None,
    {
        Taco { has_error: false, has_runtime_error: false, interpreter: None, parser: None }
    }

    /// The session's evaluator, created on first use with the session's
    /// current error flags and kept thereafter.
    pub fn interpreter(&mut self) -> (r: Interpreter)
        ensures
            final(self).has_error == old(self).has_error,
            final(self).has_runtime_error == old(self).has_runtime_error,
            final(self).parser == old(self).parser,
            final(self).interpreter == Some(r),
            old(self).interpreter is Some ==> Some(r) == old(self).interpreter,
            old(self).interpreter is None ==> r.had_error == old(self).has_error
                && r.had_runtime_error == old(self).has_runtime_error,
    {
        match self.interpreter {
            Some(i) => i,
            None => {
                let it = Interpreter::new(self);
                self.interpreter = Some(it);
                it
            },
        }
    }

    /// Records whether a syntax or lexical error has occurred.
    pub fn set_error(&mut self, value: bool)
        ensures
            final(self).has_error == value,
            final(self).has_runtime_error == old(self).has_runtime_error,
            final(self).interpreter == old(self).interpreter,
            final(self).parser == old(self).parser,
    {
        self.has_error = value;
    }

    /// Records whether a runtime error has occurred.
    pub fn set_runtime_error(&mut self, value: bool)
        ensures
            final(self).has_runtime_error == value,
            final(self).has_error == old(self).has_error,
            final(self).interpreter == old(self).interpreter,
            final(self).parser == old(self).parser,
    {
        self.has_runtime_error = value;
    }
}

} // verus!
