//! The emitter: from a resolved instruction tree to assembly text.
//!
//! Every function here appends to the output buffer and never reads it
//! back. What it appends is given by a function of the tree alone
//! ([`program_text`] and the functions below it).

use vstd::prelude::*;
use crate::compiler::asm_tree::{
    all_resolved, AFunctionDefinitionNode, AInstructionNode, AOperandNode, AProgramNode,
    ARegisterNode, AUnaryOperatorNode, FunctionView, InstructionView, OperandView, ProgramView,
};
use crate::compiler::text::{decimal, decimal_string};

verus! {

/// The mnemonic of a unary operator.
pub open spec fn operator_text(a_operator: AUnaryOperatorNode) -> Seq<char> {
    match a_operator {
        AUnaryOperatorNode::Neg => "negl"@,
        AUnaryOperatorNode::Not => "notl"@,
    }
}

/// The name of a register in its 32-bit form.
pub open spec fn register_text(register: ARegisterNode) -> Seq<char> {
    match register {
        ARegisterNode::AX => "%eax"@,
        ARegisterNode::R10 => "%r10d"@,
    }
}

/// An operand in assembler syntax: `$` and the value for an immediate, the
/// register's name, or the offset and `(%rbp)` for a stack slot. A
/// pseudo-register has no text.
pub open spec fn operand_text(a_operand: OperandView) -> Seq<char> {
    match a_operand {
        OperandView::Imm(value) => "$"@ + decimal(value),
        OperandView::Reg(register) => register_text(register),
        OperandView::Stack(offset) => decimal(offset) + "(%rbp)"@,
        OperandView::Pseudo(_) => Seq::empty(),
    }
}

/// The two instructions that set up the stack frame.
pub open spec fn prologue_text() -> Seq<char> {
    "    pushq %rbp\n"@ + "    movq %rsp, %rbp\n"@
}

/// The two instructions that tear down the stack frame.
pub open spec fn epilogue_text() -> Seq<char> {
    "   movq %rbp, %rsp\n"@ + "   popq %rbp\n"@
}

/// The line of an instruction; for a return, the epilogue and the line.
pub open spec fn instruction_text(a_instruction: InstructionView) -> Seq<char> {
    match a_instruction {
        InstructionView::Mov(src, dst) => "   movl    "@ + operand_text(src) + ", "@
            + operand_text(dst) + "\n"@,
        InstructionView::Ret => epilogue_text() + "   ret"@ + "\n"@,
        InstructionView::Unary(operator, operand) => "   "@ + operator_text(operator) + "    "@
            + operand_text(operand) + "\n"@,
        InstructionView::AllocateStack(size) => "  subq    $"@ + decimal(size) + ", %rsp"@
            + "\n"@,
    }
}

/// The lines of a sequence of instructions, in order.
pub open spec fn instructions_text(instructions: Seq<InstructionView>) -> Seq<char>
    decreases instructions.len(),
{
    if instructions.len() == 0 {
        Seq::empty()
    } else {
        instructions_text(instructions.drop_last()) + instruction_text(instructions.last())
    }
}

/// A function: the directive that makes its name global, its label, the
/// prologue, and its instructions.
pub open spec fn function_text(a_function: FunctionView) -> Seq<char> {
    "   .globl "@ + a_function.name + "\n"@ + a_function.name + ":\n"@ + prologue_text()
        + instructions_text(a_function.instructions)
}

/// The section that marks the stack as not executable.
pub open spec fn trailer_text() -> Seq<char> {
    "   .section .note.GNU-stack,\"\",@progbits\n"@
}

/// A program: its function, then the trailer.
pub open spec fn program_text(a_program: ProgramView) -> Seq<char> {
    function_text(a_program.function) + trailer_text()
}

/// The text of a sequence of instructions is put together from the texts of
/// its parts: no instruction changes the line of another.
pub proof fn lemma_instructions_text_concat(
    first: Seq<InstructionView>,
    second: Seq<InstructionView>,
)
    ensures
        instructions_text(first + second) == instructions_text(first) + instructions_text(second),
    decreases second.len(),
{
    if second.len() > 0 {
        lemma_instructions_text_concat(first, second.drop_last());
        assert((first + second).drop_last() == first + second.drop_last());
    }
}

/// Emitting is deterministic: two runs of [`emit_program`] on programs with
/// the same content append the same text, whatever the two buffers held
/// before. On equal buffers they leave equal buffers.
pub proof fn lemma_emit_deterministic(
    first: AProgramNode,
    second: AProgramNode,
    first_before: Seq<char>,
    first_after: Seq<char>,
    second_before: Seq<char>,
    second_after: Seq<char>,
)
    requires
        first@ == second@,
        first_after == first_before + program_text(first@),
        second_after == second_before + program_text(second@),
    ensures
        first_after.skip(first_before.len() as int) == second_after.skip(
            second_before.len() as int,
        ),
        first_before == second_before ==> first_after == second_after,
{
}

/// Appends the assembly text of a resolved program to `output`: its
/// function, then the trailer. What `output` held before stays in front.
///
/// A program with a pseudo-register among its operands must not be passed:
/// [`AProgramNode::is_resolved`] tells, and [`try_emit_program`] asks it
/// first.
pub fn emit_program(a_program: AProgramNode, output: &mut String)
    requires
        a_program@.resolved(),
    ensures
        final(output)@ == old(output)@ + program_text(a_program@),
{
    match a_program {
        AProgramNode::Program(a_function) => {
            emit_function(a_function, output);
            output.append("   .section .note.GNU-stack,\"\",@progbits\n");
        },
    }
}

/// Appends the assembly text of `a_program` where the program is resolved.
/// Where it is not, nothing is appended and `false` is returned.
pub fn try_emit_program(a_program: AProgramNode, output: &mut String) -> (emitted: bool)
    ensures
        emitted == a_program@.resolved(),
        emitted ==> final(output)@ == old(output)@ + program_text(a_program@),
        !emitted ==> final(output)@ == old(output)@,
{
    if a_program.is_resolved() {
        emit_program(a_program, output);
        true
    } else {
        false
    }
}

/// Appends the two instructions that set up the stack frame.
pub fn emit_prologue(output: &mut String)
    ensures
        final(output)@ == old(output)@ + prologue_text(),
{
    output.append("    pushq %rbp\n");
    output.append("    movq %rsp, %rbp\n");
}

/// Appends the two instructions that tear down the stack frame.
pub fn emit_epilogue(output: &mut String)
    ensures
        final(output)@ == old(output)@ + epilogue_text(),
{
    output.append("   movq %rbp, %rsp\n");
    output.append("   popq %rbp\n");
}

/// Appends the text of a resolved function: directive, label, prologue, and
/// the instructions in order.
pub fn emit_function(a_function: AFunctionDefinitionNode, output: &mut String)
    requires
        a_function@.resolved(),
    ensures
        final(output)@ == old(output)@ + function_text(a_function@),
{
    match a_function {
        AFunctionDefinitionNode::Function(name, instructions) => {
            output.append("   .globl ");
            output.append(name.as_str());
            output.append("\n");
            output.append(name.as_str());
            output.append(":\n");
            emit_prologue(output);
            let ghost head = output@;
            let ghost all = instructions.deep_view();
            for a_instruction in it: instructions
                invariant
                    it.seq().len() == all.len(),
                    forall|i: int| 0 <= i < all.len() ==> (#[trigger] it.seq()[i])@ == all[i],
                    all_resolved(all),
                    output@ == head + instructions_text(all.take(it.index() as int)),
            {
                proof {
                    let done = it.index() as int;
                    assert(all.take(done + 1).drop_last() == all.take(done));
                    assert(a_instruction@ == all[done]);
                }
                emit_instructions(a_instruction, output);
            }
            assert(all.take(all.len() as int) == all);
        },
    }
}

/// Appends the text of one resolved instruction, with its line break. A
/// return comes with the whole epilogue, each time.
pub fn emit_instructions(a_instruction: AInstructionNode, output: &mut String)
    requires
        a_instruction@.resolved(),
    ensures
        final(output)@ == old(output)@ + instruction_text(a_instruction@),
{
    match a_instruction {
        AInstructionNode::Mov(src, dst) => {
            let src = direct_emit_operand(src);
            let dst = direct_emit_operand(dst);
            output.append("   movl    ");
            output.append(src.as_str());
            output.append(", ");
            output.append(dst.as_str());
        },
        AInstructionNode::Ret => {
            emit_epilogue(output);
            output.append("   ret");
        },
        AInstructionNode::Unary(operator, operand) => {
            let operand = direct_emit_operand(operand);
            let operator = direct_emit_operator(operator);
            output.append("   ");
            output.append(operator.as_str());
            output.append("    ");
            output.append(operand.as_str());
        },
        AInstructionNode::AllocateStack(size) => {
            let size = decimal_string(size as i64);
            output.append("  subq    $");
            output.append(size.as_str());
            output.append(", %rsp");
        },
    }
    output.append("\n");
}

/// The text of a resolved operand.
pub fn direct_emit_operand(a_operand: AOperandNode) -> (text: String)
    requires
        a_operand@.resolved(),
    ensures
        text@ == operand_text(a_operand@),
{
    match a_operand {
        AOperandNode::Imm(value) => {
            let mut text = "$".to_owned();
            text.append(decimal_string(value as i64).as_str());
            text
        },
        AOperandNode::Reg(register) => match register {
            ARegisterNode::AX => "%eax".to_owned(),
            ARegisterNode::R10 => "%r10d".to_owned(),
        },
        AOperandNode::Stack(offset) => {
            let mut text = decimal_string(offset as i64);
            text.append("(%rbp)");
            text
        },
        // Ruled out by the precondition.
        AOperandNode::Pseudo(_) => unreached(),
    }
}

/// The mnemonic of a unary operator.
pub fn direct_emit_operator(a_operator: AUnaryOperatorNode) -> (text: String)
    ensures
        text@ == operator_text(a_operator),
{
    match a_operator {
        AUnaryOperatorNode::Neg => "negl".to_owned(),
        AUnaryOperatorNode::Not => "notl".to_owned(),
    }
}

} // verus!
