//! Bytecode instructions.

use vstd::prelude::*;

verus! {

/// The opcode of the instruction that stores an integer literal in a register.
pub const SET_INTEGER: u16 = 0;

/// The kind of an instruction, held as its opcode.
#[derive(Debug, Clone, Copy, PartialEq, Eq, Structural)]
pub struct InstructionType {
    pub opcode: u16,
}

impl InstructionType {
    /// The instruction type with the given opcode.
    pub fn new(opcode: u16) -> (kind: InstructionType)
        ensures
            kind.opcode == opcode,
    {
        InstructionType { opcode }
    }

    /// Whether this is the instruction that stores an integer literal.
    pub fn is_set_integer(&self) -> (answer: bool)
        ensures
            answer == (self.opcode == SET_INTEGER),
    {
        self.opcode == SET_INTEGER
    }
}

/// One decoded instruction with its arguments and source position.
#[derive(Debug)]
pub struct Instruction {
    pub instruction_type: InstructionType,
    pub arguments: Vec<u32>,
    pub line: u32,
    pub column: u32,
}

/// The mathematical value of an [`Instruction`].
pub ghost struct InstructionView {
    pub opcode: u16,
    pub arguments: Seq<u32>,
    pub line: u32,
    pub column: u32,
}

impl View for Instruction {
    type V = InstructionView;

    open spec fn view(&self) -> InstructionView {
        InstructionView {
            opcode: self.instruction_type.opcode,
            arguments: self.arguments@,
            line: self.line,
            column: self.column,
        }
    }
}

impl DeepView for Instruction {
    type V = InstructionView;

    open spec fn deep_view(&self) -> InstructionView {
        self@
    }
}

impl Instruction {
    /// An instruction of the given kind.
    pub fn new(
        instruction_type: InstructionType,
        arguments: Vec<u32>,
        line: u32,
        column: u32,
    ) -> (instruction: Instruction)
        ensures
            instruction@ == (InstructionView {
                opcode: instruction_type.opcode,
                arguments: arguments@,
                line,
                column,
            }),
    {
        Instruction { instruction_type, arguments, line, column }
    }
}

} // verus!
