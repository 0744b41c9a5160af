//! The resolved instruction tree that the emitter walks.
//!
//! A tree is resolved when none of its operands is a pseudo-register: those
//! stand for storage that has not been allocated yet, and nothing can be
//! emitted for them.

use vstd::prelude::*;

verus! {

/// The registers that resolved operands name: the accumulator and a scratch
/// register.
#[derive(Clone, Copy, Debug, PartialEq, Eq, Structural)]
pub enum ARegisterNode {
    AX,
    R10,
}

/// Arithmetic negation and bitwise complement.
#[derive(Clone, Copy, Debug, PartialEq, Eq, Structural)]
pub enum AUnaryOperatorNode {
    Neg,
    Not,
}

#[derive(Clone, Debug, PartialEq, Eq)]
pub enum AOperandNode {
    /// An immediate value.
    Imm(i32),
    Reg(ARegisterNode),
    /// A pseudo-register, by name: not allocated yet.
    Pseudo(String),
    /// A stack slot, by its offset in bytes from the frame base.
    Stack(i32),
}

#[derive(Clone, Debug, PartialEq, Eq)]
pub enum AInstructionNode {
    Mov(AOperandNode, AOperandNode),
    Unary(AUnaryOperatorNode, AOperandNode),
    /// Reserves the given number of bytes on the stack.
    AllocateStack(i32),
    Ret,
}

#[derive(Clone, Debug, PartialEq, Eq)]
pub enum AFunctionDefinitionNode {
    /// A function: its name and its instructions.
    Function(String, Vec<AInstructionNode>),
}

/// A program: exactly one function.
#[derive(Clone, Debug, PartialEq, Eq)]
pub enum AProgramNode {
    Program(AFunctionDefinitionNode),
}

/// An operand as a mathematical value.
pub enum OperandView {
    Imm(int),
    Reg(ARegisterNode),
    Pseudo(Seq<char>),
    Stack(int),
}

/// An instruction as a mathematical value.
pub enum InstructionView {
    Mov(OperandView, OperandView),
    Unary(AUnaryOperatorNode, OperandView),
    AllocateStack(int),
    Ret,
}

/// A function as a mathematical value.
pub struct FunctionView {
    pub name: Seq<char>,
    pub instructions: Seq<InstructionView>,
}

/// A program as a mathematical value.
pub struct ProgramView {
    pub function: FunctionView,
}

impl View for AOperandNode {
    type V = OperandView;

    open spec fn view(&self) -> OperandView {
        match self {
            AOperandNode::Imm(value) => OperandView::Imm(*value as int),
            AOperandNode::Reg(register) => OperandView::Reg(*register),
            AOperandNode::Pseudo(name) => OperandView::Pseudo(name@),
            AOperandNode::Stack(offset) => OperandView::Stack(*offset as int),
        }
    }
}

impl View for AInstructionNode {
    type V = InstructionView;

    open spec fn view(&self) -> InstructionView {
        match self {
            AInstructionNode::Mov(src, dst) => InstructionView::Mov(src@, dst@),
            AInstructionNode::Unary(operator, operand) => InstructionView::Unary(
                *operator,
                operand@,
            ),
            AInstructionNode::AllocateStack(size) => InstructionView::AllocateStack(*size as int),
            AInstructionNode::Ret => InstructionView::Ret,
        }
    }
}

impl DeepView for AInstructionNode {
    type V = InstructionView;

    open spec fn deep_view(&self) -> InstructionView {
        self@
    }
}

impl View for AFunctionDefinitionNode {
    type V = FunctionView;

    open spec fn view(&self) -> FunctionView {
        match self {
            AFunctionDefinitionNode::Function(name, instructions) => FunctionView {
                name: name@,
                instructions: instructions.deep_view(),
            },
        }
    }
}

impl View for AProgramNode {
    type V = ProgramView;

    open spec fn view(&self) -> ProgramView {
        match self {
            AProgramNode::Program(function) => ProgramView { function: function@ },
        }
    }
}

impl OperandView {
    /// The operand is no pseudo-register.
    pub open spec fn resolved(self) -> bool {
        !(self is Pseudo)
    }
}

impl InstructionView {
    /// Every operand of the instruction is resolved.
    pub open spec fn resolved(self) -> bool {
        match self {
            InstructionView::Mov(src, dst) => src.resolved() && dst.resolved(),
            InstructionView::Unary(_, operand) => operand.resolved(),
            InstructionView::AllocateStack(_) => true,
            InstructionView::Ret => true,
        }
    }
}

/// Every one of the instructions is resolved.
pub open spec fn all_resolved(instructions: Seq<InstructionView>) -> bool {
    forall|i: int| 0 <= i < instructions.len() ==> (#[trigger] instructions[i]).resolved()
}

impl FunctionView {
    /// Every instruction of the function is resolved.
    pub open spec fn resolved(self) -> bool {
        all_resolved(self.instructions)
    }
}

impl ProgramView {
    /// Every operand in the program is resolved.
    pub open spec fn resolved(self) -> bool {
        self.function.resolved()
    }
}

impl AOperandNode {
    /// Whether the operand is a value, a register or a stack slot.
    pub fn is_resolved(&self) -> (resolved: bool)
        ensures
            resolved == self@.resolved(),
    {
        match self {
            AOperandNode::Pseudo(_) => false,
            _ => true,
        }
    }
}

impl AInstructionNode {
    /// Whether every operand of the instruction is resolved.
    pub fn is_resolved(&self) -> (resolved: bool)
        ensures
            resolved == self@.resolved(),
    {
        match self {
            AInstructionNode::Mov(src, dst) => src.is_resolved() && dst.is_resolved(),
            AInstructionNode::Unary(_, operand) => operand.is_resolved(),
            AInstructionNode::AllocateStack(_) => true,
            AInstructionNode::Ret => true,
        }
    }
}

impl AFunctionDefinitionNode {
    /// Whether every instruction of the function is resolved.
    pub fn is_resolved(&self) -> (resolved: bool)
        ensures
            resolved == self@.resolved(),
    {
        match self {
            AFunctionDefinitionNode::Function(_, instructions) => {
                let mut i: usize = 0;
                while i < instructions.len()
                    invariant
                        i <= instructions.len(),
                        self@.instructions == instructions.deep_view(),
                        all_resolved(instructions.deep_view().take(i as int)),
                    decreases instructions.len() - i,
                {
                    if !instructions[i].is_resolved() {
                        assert(!instructions.deep_view()[i as int].resolved());
                        return false;
                    }
                    i += 1;
                }
                assert(instructions.deep_view().take(i as int) == instructions.deep_view());
                true
            },
        }
    }
}

impl AProgramNode {
    /// Whether the program can be emitted: none of its operands is a
    /// pseudo-register.
    pub fn is_resolved(&self) -> (resolved: bool)
        ensures
            resolved == self@.resolved(),
    {
        match self {
            AProgramNode::Program(function) => function.is_resolved(),
        }
    }
}

} // verus!
