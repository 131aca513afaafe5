//! Code generation: from IR to an opaque compiled function.

use vstd::prelude::*;
use crate::ir::{IRNode, NodeView, Type, IR};
use crate::types::FunctionId;

verus! {

/// The model of a compiled function.
pub struct CompiledView {
    pub func_id: FunctionId,
    pub entry_point: usize,
    pub code: Seq<u8>,
}

/// The output of code generation for one function.
#[derive(Debug, Clone)]
pub struct CompiledFunction {
    pub func_id: FunctionId,
    pub entry_point: usize,
    pub code: Vec<u8>,
}

impl View for CompiledFunction {
    type V = CompiledView;

    open spec fn view(&self) -> CompiledView {
        CompiledView { func_id: self.func_id, entry_point: self.entry_point, code: self.code@ }
    }
}

impl CompiledFunction {
    /// A compiled function without code, entered at 0.
    pub fn new(func_id: FunctionId) -> (compiled: CompiledFunction)
        ensures
            compiled@ == (CompiledView { func_id, entry_point: 0, code: Seq::empty() }),
    {
        CompiledFunction { func_id, entry_point: 0, code: Vec::new() }
    }
}

/// The backends of the code generator. Only `Mock` generates code of its
/// own; the others generate what `Mock` does.
#[derive(Debug, Clone, Copy, PartialEq, Eq, Structural)]
pub enum CodegenBackend {
    Mock,
    Cranelift,
    Dynasm,
}

/// The eight bytes of `value`, least significant first.
pub open spec fn le_bytes(value: u64) -> Seq<u8> {
    seq![
        (value % 0x100) as u8,
        (value / 0x100 % 0x100) as u8,
        (value / 0x1_0000 % 0x100) as u8,
        (value / 0x100_0000 % 0x100) as u8,
        (value / 0x1_0000_0000 % 0x100) as u8,
        (value / 0x100_0000_0000 % 0x100) as u8,
        (value / 0x1_0000_0000_0000 % 0x100) as u8,
        (value / 0x100_0000_0000_0000 % 0x100) as u8,
    ]
}

/// The lowest byte of `n`.
pub open spec fn low_byte(n: int) -> u8 {
    (n % 0x100) as u8
}

/// The code of one node: a marker for its kind, then its operand, if the
/// kind has one. A constant is followed by the eight bytes of its value,
/// least significant first; a load or store by the lowest byte of its slot;
/// a call by the lowest byte of its argument count; a guard by 1 if it
/// expects a number and 0 if not.
pub open spec fn encode(node: NodeView) -> Seq<u8> {
    match node {
        NodeView::Constant { value, .. } => seq![0x01u8] + le_bytes(value),
        NodeView::Add { .. } => seq![0x10u8],
        NodeView::Sub { .. } => seq![0x11u8],
        NodeView::Mul { .. } => seq![0x12u8],
        NodeView::Div { .. } => seq![0x13u8],
        NodeView::LoadLocal { index, .. } => seq![0x20u8, low_byte(index as int)],
        NodeView::StoreLocal { index, .. } => seq![0x21u8, low_byte(index as int)],
        NodeView::Call { args, .. } => seq![0x30u8, low_byte(args.len() as int)],
        NodeView::Return { .. } => seq![0x40u8],
        NodeView::TypeGuard { expected_type, .. } => seq![
            0x50u8,
            if expected_type == Type::Number {
                0x01u8
            } else {
                0x00u8
            },
        ],
    }
}

/// The code of the first `k` nodes, one after the other.
pub open spec fn encode_all(nodes: Seq<NodeView>, k: int) -> Seq<u8>
    decreases k,
{
    if k <= 0 {
        Seq::empty()
    } else {
        encode_all(nodes, k - 1) + encode(nodes[k - 1])
    }
}

/// Compiles IR to code.
pub struct CodeGenerator {
    backend: CodegenBackend,
}

impl CodeGenerator {
    /// The backend of the generator.
    pub closed spec fn backend_spec(&self) -> CodegenBackend {
        self.backend
    }

    /// A generator for `backend`.
    pub fn new(backend: CodegenBackend) -> (generator: CodeGenerator)
        ensures
            generator.backend_spec() == backend,
    {
        CodeGenerator { backend }
    }

    /// A generator for the mock backend.
    pub fn mock() -> (generator: CodeGenerator)
        ensures
            generator.backend_spec() == CodegenBackend::Mock,
    {
        CodeGenerator::new(CodegenBackend::Mock)
    }

    /// The backend of the generator.
    pub fn backend(&self) -> (backend: CodegenBackend)
        ensures
            backend == self.backend_spec(),
    {
        self.backend
    }

    /// Generates the code of `ir` for the function `func_id`: the code of
    /// each node, in order. Every backend generates the mock code.
    pub fn generate(&self, ir: &IR, func_id: FunctionId) -> (compiled: CompiledFunction)
        ensures
            compiled@ == (CompiledView {
                func_id,
                entry_point: 0,
                code: encode_all(ir@.nodes, ir@.nodes.len() as int),
            }),
    {
        match self.backend {
            CodegenBackend::Mock => self.generate_mock(ir, func_id),
            CodegenBackend::Cranelift => self.generate_mock(ir, func_id),
            CodegenBackend::Dynasm => self.generate_mock(ir, func_id),
        }
    }

    /// Appends the code of `node` to `code`.
    fn emit(code: &mut Vec<u8>, node: &IRNode)
        ensures
            final(code)@ == old(code)@ + encode(node@),
    {
        match node {
            IRNode::Constant { value, .. } => {
                let v = *value;
                code.push(0x01);
                code.push((v % 0x100) as u8);
                code.push((v / 0x100 % 0x100) as u8);
                code.push((v / 0x1_0000 % 0x100) as u8);
                code.push((v / 0x100_0000 % 0x100) as u8);
                code.push((v / 0x1_0000_0000 % 0x100) as u8);
                code.push((v / 0x100_0000_0000 % 0x100) as u8);
                code.push((v / 0x1_0000_0000_0000 % 0x100) as u8);
                code.push((v / 0x100_0000_0000_0000 % 0x100) as u8);
            },
            IRNode::Add { .. } => {
                code.push(0x10);
            },
            IRNode::Sub { .. } => {
                code.push(0x11);
            },
            IRNode::Mul { .. } => {
                code.push(0x12);
            },
            IRNode::Div { .. } => {
                code.push(0x13);
            },
            IRNode::LoadLocal { index, .. } => {
                code.push(0x20);
                code.push((*index % 0x100) as u8);
            },
            IRNode::StoreLocal { index, .. } => {
                code.push(0x21);
                code.push((*index % 0x100) as u8);
            },
            IRNode::Call { args, .. } => {
                code.push(0x30);
                code.push((args.len() % 0x100) as u8);
            },
            IRNode::Return { .. } => {
                code.push(0x40);
            },
            IRNode::TypeGuard { expected_type, .. } => {
                code.push(0x50);
                code.push(
                    match expected_type {
                        Type::Number => 0x01,
                        Type::Unknown => 0x00,
                    },
                );
            },
        }
        assert(code@ =~= old(code)@ + encode(node@));
    }

    /// Generates the mock code of `ir`.
    fn generate_mock(&self, ir: &IR, func_id: FunctionId) -> (compiled: CompiledFunction)
        ensures
            compiled@ == (CompiledView {
                func_id,
                entry_point: 0,
                code: encode_all(ir@.nodes, ir@.nodes.len() as int),
            }),
    {
        let mut compiled = CompiledFunction::new(func_id);
        let n = ir.len();
        let mut i: usize = 0;
        while i < n
            invariant
                i <= n,
                n == ir@.nodes.len(),
                compiled.func_id == func_id,
                compiled.entry_point == 0,
                compiled.code@ == encode_all(ir@.nodes, i as int),
            decreases n - i,
        {
            Self::emit(&mut compiled.code, ir.node(i));
            i += 1;
        }
        compiled
    }
}

impl Default for CodeGenerator {
    fn default() -> (generator: CodeGenerator)
        ensures
            generator.backend_spec() == CodegenBackend::Mock,
    {
        CodeGenerator::mock()
    }
}

} // verus!
