use vstd::prelude::*;
use crate::ast::NodePosition;

verus! {

/// One bytecode instruction.  Each instruction carries at most one operand,
/// and every operand is a single byte; the compiler reports
/// `OperandOverflow` rather than emit anything larger.
#[derive(Debug, Clone, Copy, PartialEq, Eq, Structural)]
pub enum Instruction {
    /// Push constant-pool entry `idx` onto the operand stack.
    Constant(u8),
    /// Pop two numbers, push their sum.
    Add,
    /// Pop two numbers, push their difference.
    Sub,
    /// Pop two numbers, push their product.
    Mul,
    /// Pop two numbers, push their quotient.
    Div,
    /// Pop two values, push the boolean of their order.
    Less,
    /// Pop two values, push the boolean of their order.
    Greater,
    /// Pop two values, push the boolean of their order.
    LessEq,
    /// Pop two values, push the boolean of their order.
    GreaterEq,
    /// Pop two values, push the boolean of their equality.
    Equal,
    /// Pop two values, push the string joining their display texts.
    Concat,
    /// Push the global variable whose name is constant `idx`.
    Load(u8),
    /// Pop a value and write it to the global named by constant `idx`,
    /// leaving the value on the stack.
    Assign(u8),
    /// Pop a name and declare that global with its default value.
    VarDecl,
    /// Pop `n` values and push one array holding them in push order.
    DefineArray(u8),
    /// Invoke the function or native function named by constant `idx`.
    Call(u8),
    /// Trailing marker of a call: how many arguments the call took.  Used by
    /// the native-call path; a no-op when executed on its own.
    Args(u8),
    /// Unconditional forward jump displacing the pointer by `n`
    /// instructions in all.
    Jump(u8),
    /// Pop a value; on a falsy value, jump forward by `n` instructions in
    /// all, else fall through.
    JumpIfFalse(u8),
    /// Header of an inlined function body of `n` instructions; straight-line
    /// execution skips the body.
    FunctionDef(u8),
    /// Pop the call stack and resume after the call that got here.
    Return,
}

/// A linear instruction sequence plus its parallel position table, one
/// source position per instruction.
#[derive(Debug)]
pub struct Chunk {
    pub code: Vec<Instruction>,
    pub positions: Vec<NodePosition>,
}

impl Chunk {
    /// The position table stays index-aligned with the instructions.
    pub open spec fn wf(self) -> bool {
        self.positions@.len() == self.code@.len()
    }

    /// An empty chunk.
    pub fn new() -> (r: Chunk)
        ensures
            r.wf(),
            r.code@ == Seq::<Instruction>::empty(),
    {
        let r = Chunk { code: Vec::new(), positions: Vec::new() };
        proof {
            assert(r.code@ =~= Seq::<Instruction>::empty());
        }
        r
    }

    /// How many instructions the chunk holds.
    pub fn len(&self) -> (n: usize)
        ensures
            n == self.code@.len(),
    {
        self.code.len()
    }

    /// Appends one instruction with its source position.
    pub fn push(&mut self, ins: Instruction, pos: NodePosition)
        requires
            old(self).wf(),
        ensures
            final(self).wf(),
            final(self).code@ == old(self).code@.push(ins),
    {
        self.code.push(ins);
        self.positions.push(pos);
    }

    /// Splices a finished sub-chunk onto the end of this one: instructions
    /// and positions are appended in lock step.
    pub fn append(&mut self, other: Chunk)
        requires
            old(self).wf(),
            other.wf(),
        ensures
            final(self).wf(),
            final(self).code@ == old(self).code@ + other.code@,
    {
        let Chunk { mut code, mut positions } = other;
        self.code.append(&mut code);
        self.positions.append(&mut positions);
    }
}

} // verus!
