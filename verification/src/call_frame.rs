//! Call frames: the source positions that lead to the current call.

use crate::compiled_code::RcCompiledCode;
use vstd::prelude::*;

verus! {

/// A position in a piece of code, with the frame of the caller.
#[derive(Debug)]
pub struct CallFrame {
    pub code: RcCompiledCode,
    pub line: u32,
    pub parent: Option<Box<CallFrame>>,
}

impl CallFrame {
    /// The number of frames below this one.
    pub open spec fn depth(self) -> nat
        decreases self,
    {
        match self.parent {
            Some(parent) => 1 + parent.depth(),
            None => 0,
        }
    }

    /// A frame without a parent.
    pub fn new(code: RcCompiledCode, line: u32) -> (frame: CallFrame)
        ensures
            frame.code == code,
            frame.line == line,
            frame.parent is None,
    {
        CallFrame { code, line, parent: None }
    }

    /// A frame without a parent, at the line where `code` starts.
    pub fn from_code(code: RcCompiledCode) -> (frame: CallFrame)
        ensures
            frame.code == code,
            frame.line == code.line,
            frame.parent is None,
    {
        let line = code.line;
        CallFrame { code, line, parent: None }
    }

    /// Puts `parent` below this frame.
    pub fn set_parent(&mut self, parent: CallFrame)
        ensures
            *final(self) == (CallFrame { parent: Some(Box::new(parent)), ..*old(self) }),
    {
        self.parent = Some(Box::new(parent));
    }
}

} // verus!
