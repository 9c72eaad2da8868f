//! Descriptors of compiled functions.

use crate::instruction::{Instruction, InstructionView};
use std::sync::Arc;
use vstd::prelude::*;

verus! {

/// A double-precision number held as its IEEE-754 bit pattern.
#[derive(Debug, Clone, Copy, PartialEq, Eq, Structural)]
pub struct Float {
    pub bits: u64,
}

impl View for Float {
    type V = u64;

    open spec fn view(&self) -> u64 {
        self.bits
    }
}

impl DeepView for Float {
    type V = u64;

    open spec fn deep_view(&self) -> u64 {
        self.bits
    }
}

impl Float {
    /// The number with the given bit pattern.
    pub fn from_bits(bits: u64) -> (number: Float)
        ensures
            number.bits == bits,
    {
        Float { bits }
    }

    /// The bit pattern of this number.
    pub fn to_bits(&self) -> (bits: u64)
        ensures
            bits == self.bits,
    {
        self.bits
    }
}

/// A shared handle to a [`CompiledCode`].
pub type RcCompiledCode = Arc<CompiledCode>;

/// An immutable function descriptor: its signature, locals, instructions and
/// literal pools.
#[derive(Debug)]
pub struct CompiledCode {
    pub name: String,
    pub file: String,
    pub line: u32,
    pub arguments: u32,
    pub required_arguments: u32,
    pub rest_argument: bool,
    pub locals: Vec<String>,
    pub instructions: Vec<Instruction>,
    pub integer_literals: Vec<i64>,
    pub float_literals: Vec<Float>,
    pub string_literals: Vec<String>,
    pub code_objects: Vec<RcCompiledCode>,
}

/// The mathematical value of a [`CompiledCode`].
pub ghost struct CompiledCodeView {
    pub name: Seq<char>,
    pub file: Seq<char>,
    pub line: u32,
    pub arguments: u32,
    pub required_arguments: u32,
    pub rest_argument: bool,
    pub locals: Seq<Seq<char>>,
    pub instructions: Seq<InstructionView>,
    pub integer_literals: Seq<i64>,
    pub float_literals: Seq<u64>,
    pub string_literals: Seq<Seq<char>>,
    pub code_objects: Seq<CompiledCodeView>,
}

/// The value of a code object, nested code objects included.
pub open spec fn code_view(code: CompiledCode) -> CompiledCodeView
    decreases code,
{
    CompiledCodeView {
        name: code.name@,
        file: code.file@,
        line: code.line,
        arguments: code.arguments,
        required_arguments: code.required_arguments,
        rest_argument: code.rest_argument,
        locals: code.locals.deep_view(),
        instructions: code.instructions.deep_view(),
        integer_literals: code.integer_literals.deep_view(),
        float_literals: code.float_literals.deep_view(),
        string_literals: code.string_literals.deep_view(),
        code_objects: Seq::new(
            code.code_objects@.len(),
            |i: int|
                if 0 <= i < code.code_objects@.len() {
                    code_view(*code.code_objects@[i])
                } else {
                    arbitrary()
                },
        ),
    }
}

impl View for CompiledCode {
    type V = CompiledCodeView;

    open spec fn view(&self) -> CompiledCodeView {
        code_view(*self)
    }
}

impl DeepView for CompiledCode {
    type V = CompiledCodeView;

    open spec fn deep_view(&self) -> CompiledCodeView {
        code_view(*self)
    }
}

impl CompiledCode {
    /// A code object without arguments, locals, literals or nested code.
    pub fn new(name: String, file: String, line: u32, instructions: Vec<Instruction>) -> (code:
        CompiledCode)
        ensures
            code@ == (CompiledCodeView {
                name: name@,
                file: file@,
                line,
                arguments: 0,
                required_arguments: 0,
                rest_argument: false,
                locals: Seq::empty(),
                instructions: instructions.deep_view(),
                integer_literals: Seq::empty(),
                float_literals: Seq::empty(),
                string_literals: Seq::empty(),
                code_objects: Seq::empty(),
            }),
    {
        let code = CompiledCode {
            name,
            file,
            line,
            arguments: 0,
            required_arguments: 0,
            rest_argument: false,
            locals: Vec::new(),
            instructions,
            integer_literals: Vec::new(),
            float_literals: Vec::new(),
            string_literals: Vec::new(),
            code_objects: Vec::new(),
        };
        assert(code@.locals =~= Seq::empty());
        assert(code@.integer_literals =~= Seq::empty());
        assert(code@.float_literals =~= Seq::empty());
        assert(code@.string_literals =~= Seq::empty());
        assert(code@.code_objects =~= Seq::empty());
        code
    }

    /// As [`CompiledCode::new`], behind a shared handle.
    pub fn with_rc(name: String, file: String, line: u32, instructions: Vec<Instruction>) -> (code:
        RcCompiledCode)
        ensures
            code@ == (CompiledCodeView {
                name: name@,
                file: file@,
                line,
                arguments: 0,
                required_arguments: 0,
                rest_argument: false,
                locals: Seq::empty(),
                instructions: instructions.deep_view(),
                integer_literals: Seq::empty(),
                float_literals: Seq::empty(),
                string_literals: Seq::empty(),
                code_objects: Seq::empty(),
            }),
    {
        Arc::new(CompiledCode::new(name, file, line, instructions))
    }
}

} // verus!
