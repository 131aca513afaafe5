//! Bytecode: instructions and the chunk that carries them.

use vstd::prelude::*;
use crate::types::Value;

verus! {

/// One bytecode instruction.
#[derive(Debug, Clone, Copy, PartialEq, Eq, Structural)]
pub enum Instruction {
    /// Push the constant at this index of the constant pool.
    LoadConst(usize),
    /// Push the value of this local slot.
    LoadLocal(usize),
    /// Pop a value and store it in this local slot.
    StoreLocal(usize),
    /// Pop two numbers, push their sum.
    Add,
    /// Pop two numbers, push their difference.
    Sub,
    /// Pop two numbers, push their product.
    Mul,
    /// Pop two numbers, push their quotient.
    Div,
    /// Print the value on top of the stack.
    Print,
    /// Call a function with this many arguments.
    Call(usize),
    /// Return from the function.
    Return,
    /// Jump by this offset, counted from the instruction after the jump.
    Jump(isize),
    /// Jump by this offset if the value on top of the stack is false.
    JumpIfFalse(isize),
}

/// The model of a chunk: its parts as sequences.
pub struct ChunkView {
    pub instructions: Seq<Instruction>,
    pub constants: Seq<Value>,
    pub local_count: usize,
}

/// A unit of bytecode: instructions, constant pool and number of local slots.
#[derive(Debug, Clone)]
pub struct BytecodeChunk {
    pub instructions: Vec<Instruction>,
    pub constants: Vec<Value>,
    pub local_count: usize,
}

impl View for BytecodeChunk {
    type V = ChunkView;

    open spec fn view(&self) -> ChunkView {
        ChunkView {
            instructions: self.instructions@,
            constants: self.constants@,
            local_count: self.local_count,
        }
    }
}

impl BytecodeChunk {
    /// An empty chunk with no local slots.
    pub fn new() -> (chunk: BytecodeChunk)
        ensures
            chunk@.instructions == Seq::<Instruction>::empty(),
            chunk@.constants == Seq::<Value>::empty(),
            chunk@.local_count == 0,
    {
        BytecodeChunk { instructions: Vec::new(), constants: Vec::new(), local_count: 0 }
    }

    /// Appends an instruction.
    pub fn emit(&mut self, instruction: Instruction)
        ensures
            final(self)@.instructions == old(self)@.instructions.push(instruction),
            final(self)@.constants == old(self)@.constants,
            final(self)@.local_count == old(self)@.local_count,
    {
        self.instructions.push(instruction);
    }

    /// Appends a constant to the pool and returns its index.
    pub fn add_constant(&mut self, value: Value) -> (index: usize)
        ensures
            index == old(self)@.constants.len(),
            final(self)@.constants == old(self)@.constants.push(value),
            final(self)@.instructions == old(self)@.instructions,
            final(self)@.local_count == old(self)@.local_count,
    {
        self.constants.push(value);
        self.constants.len() - 1
    }

    /// Sets the number of local slots.
    pub fn set_local_count(&mut self, count: usize)
        ensures
            final(self)@.local_count == count,
            final(self)@.instructions == old(self)@.instructions,
            final(self)@.constants == old(self)@.constants,
    {
        self.local_count = count;
    }

    /// A copy of the chunk with the same instructions, constants and slots.
    pub fn duplicate(&self) -> (copy: BytecodeChunk)
        ensures
            copy@ == self@,
    {
        let mut instructions: Vec<Instruction> = Vec::new();
        let mut i: usize = 0;
        while i < self.instructions.len()
            invariant
                i <= self.instructions.len(),
                instructions@ == self.instructions@.subrange(0, i as int),
            decreases self.instructions.len() - i,
        {
            instructions.push(self.instructions[i]);
            assert(instructions@ =~= self.instructions@.subrange(0, i + 1));
            i += 1;
        }
        assert(instructions@ =~= self.instructions@);
        let mut constants: Vec<Value> = Vec::new();
        let mut j: usize = 0;
        while j < self.constants.len()
            invariant
                j <= self.constants.len(),
                constants@ == self.constants@.subrange(0, j as int),
            decreases self.constants.len() - j,
        {
            constants.push(self.constants[j]);
            assert(constants@ =~= self.constants@.subrange(0, j + 1));
            j += 1;
        }
        assert(constants@ =~= self.constants@);
        BytecodeChunk { instructions, constants, local_count: self.local_count }
    }
}

impl Default for BytecodeChunk {
    fn default() -> (chunk: BytecodeChunk)
        ensures
            chunk@.instructions == Seq::<Instruction>::empty(),
            chunk@.constants == Seq::<Value>::empty(),
            chunk@.local_count == 0,
    {
        BytecodeChunk::new()
    }
}

} // verus!
