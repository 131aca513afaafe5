//! Bytecode generation from the syntax tree.

use vstd::prelude::*;
use vstd::std_specs::vec::axiom_vec_index_decreases;
use vstd::string::StringExecFns;
use crate::ast::{node_models, ASTNode, ASTView, BinOp};
use crate::bytecode::{BytecodeChunk, ChunkView, Instruction};
use crate::scope::{Scope, ScopeView};
use crate::types::Value;

verus! {

/// The model of a generator: the chunk built so far and the scope.
pub struct GenView {
    pub chunk: ChunkView,
    pub scope: ScopeView,
}

/// The offset of a jump at position `from` that lands at position `to`: it
/// counts from the instruction after the jump, and stops at the ends of the
/// range of offsets.
pub open spec fn jump_offset(from: int, to: int) -> isize {
    let distance = to - from - 1;
    if distance > isize::MAX {
        isize::MAX
    } else if distance < isize::MIN {
        isize::MIN
    } else {
        distance as isize
    }
}

impl GenView {
    /// The number of instructions built so far.
    pub open spec fn len(self) -> int {
        self.chunk.instructions.len() as int
    }

    /// The generator with `instruction` appended.
    pub open spec fn emit(self, instruction: Instruction) -> GenView {
        GenView {
            chunk: ChunkView {
                instructions: self.chunk.instructions.push(instruction),
                ..self.chunk
            },
            ..self
        }
    }

    /// The generator with `instruction` in place of the one at `index`.
    pub open spec fn patch(self, index: int, instruction: Instruction) -> GenView {
        GenView {
            chunk: ChunkView {
                instructions: self.chunk.instructions.update(index, instruction),
                ..self.chunk
            },
            ..self
        }
    }

    /// The generator with the number `value` added to the constant pool and
    /// the instruction that loads it appended.
    pub open spec fn load_number(self, value: u64) -> GenView {
        GenView {
            chunk: ChunkView {
                instructions: self.chunk.instructions.push(
                    Instruction::LoadConst(self.chunk.constants.len() as usize),
                ),
                constants: self.chunk.constants.push(Value::Number(value)),
                ..self.chunk
            },
            ..self
        }
    }

    /// The generator with `name` declared and the store to its slot
    /// appended.
    pub open spec fn store_new(self, name: Seq<char>) -> GenView {
        GenView { scope: self.scope.declare(name), ..self }.emit(
            Instruction::StoreLocal(self.scope.local_count() as usize),
        )
    }

    /// The generator with the instruction of `op` appended, if `op` is an
    /// arithmetic operator; a comparison has no instruction.
    pub open spec fn operate(self, op: BinOp) -> GenView {
        match op {
            BinOp::Add => self.emit(Instruction::Add),
            BinOp::Sub => self.emit(Instruction::Sub),
            BinOp::Mul => self.emit(Instruction::Mul),
            BinOp::Div => self.emit(Instruction::Div),
            _ => self,
        }
    }

    /// The generator with its chunk's slot count set to the number of
    /// variables declared in its scope.
    pub open spec fn finish(self) -> GenView {
        GenView {
            chunk: ChunkView { local_count: self.scope.local_count() as usize, ..self.chunk },
            ..self
        }
    }
}

/// Whether a call is the built-in print: the callee is the name `print`
/// and there is one argument.
pub open spec fn is_print_call(callee: ASTView, args: Seq<ASTView>) -> bool {
    callee matches ASTView::Identifier { name, .. } && name == "print"@ && args.len() == 1
}

/// The generator after the first `k` nodes of `nodes` are compiled in order.
pub open spec fn compile_list(nodes: Seq<ASTView>, k: nat, g: GenView) -> GenView
    decreases nodes, k,
    when k <= nodes.len()
{
    if k == 0 {
        g
    } else {
        compile(nodes[k - 1], compile_list(nodes, (k - 1) as nat, g))
    }
}

/// The generator after `node` is compiled.
///
/// A number becomes a constant and its load; a name that the scope knows,
/// the load of its slot, any other name nothing. A binary expression is its
/// operands, left first, then its operator. A declaration is its
/// initializer, then a store to the variable's new slot. A call of the
/// built-in print is its argument, then a print; any other call is the
/// callee, the arguments, then a call of that many arguments. An `if` jumps
/// over its first branch if the condition is false, and over its second at
/// the end of the first. A `for` jumps out if the condition is false, and
/// back to the condition after body and update. A function declaration
/// compiles to nothing.
pub open spec fn compile(node: ASTView, g: GenView) -> GenView
    decreases node, 0nat,
{
    match node {
        ASTView::Program(statements) => compile_list(statements, statements.len(), g),
        ASTView::NumberLiteral { value, .. } => g.load_number(value),
        ASTView::Identifier { name, .. } => match g.scope.lookup(name) {
            Some(index) => g.emit(Instruction::LoadLocal(index)),
            None => g,
        },
        ASTView::BinaryExpr { op, left, right, .. } => compile(*right, compile(*left, g)).operate(
            op,
        ),
        ASTView::LetDecl { name, init, .. } => compile(*init, g).store_new(name),
        ASTView::CallExpr { callee, args, .. } => {
            if is_print_call(*callee, args) {
                compile(args[0], g).emit(Instruction::Print)
            } else {
                compile_list(args, args.len(), compile(*callee, g)).emit(
                    Instruction::Call(args.len() as usize),
                )
            }
        },
        ASTView::ReturnStmt { value, .. } => compile(*value, g).emit(Instruction::Return),
        ASTView::BlockStmt { statements, .. } => compile_list(statements, statements.len(), g),
        ASTView::IfStmt { cond, then_branch, else_branch, .. } => {
            let tested = compile(*cond, g);
            let then_done = compile(*then_branch, tested.emit(Instruction::JumpIfFalse(0)));
            let skipped = then_done.emit(Instruction::Jump(0)).patch(
                tested.len(),
                Instruction::JumpIfFalse(jump_offset(tested.len(), then_done.len() + 1)),
            );
            let else_done = match else_branch {
                Some(branch) => compile(*branch, skipped),
                None => skipped,
            };
            else_done.patch(
                then_done.len(),
                Instruction::Jump(jump_offset(then_done.len(), else_done.len())),
            )
        },
        ASTView::ForStmt { init, cond, update, body, .. } => {
            let started = compile(*init, g);
            let tested = compile(*cond, started);
            let updated = compile(
                *update,
                compile(*body, tested.emit(Instruction::JumpIfFalse(0))),
            );
            updated.emit(Instruction::Jump(jump_offset(updated.len(), started.len()))).patch(
                tested.len(),
                Instruction::JumpIfFalse(jump_offset(tested.len(), updated.len() + 1)),
            )
        },
        ASTView::FunctionDecl { .. } => g,
    }
}

/// Compiling only appends: the chunk never gets shorter.
pub proof fn lemma_compile_grows(node: ASTView, g: GenView)
    ensures
        compile(node, g).len() >= g.len(),
    decreases node, 0nat,
{
    match node {
        ASTView::Program(statements) => lemma_compile_list_grows(statements, statements.len(), g),
        ASTView::BinaryExpr { op, left, right, .. } => {
            lemma_compile_grows(*left, g);
            lemma_compile_grows(*right, compile(*left, g));
        },
        ASTView::LetDecl { name, init, .. } => lemma_compile_grows(*init, g),
        ASTView::CallExpr { callee, args, .. } => {
            if is_print_call(*callee, args) {
                lemma_compile_grows(args[0], g);
            } else {
                lemma_compile_grows(*callee, g);
                lemma_compile_list_grows(args, args.len(), compile(*callee, g));
            }
        },
        ASTView::ReturnStmt { value, .. } => lemma_compile_grows(*value, g),
        ASTView::BlockStmt { statements, .. } => lemma_compile_list_grows(
            statements,
            statements.len(),
            g,
        ),
        ASTView::IfStmt { cond, then_branch, else_branch, .. } => {
            let tested = compile(*cond, g);
            lemma_compile_grows(*cond, g);
            lemma_compile_grows(*then_branch, tested.emit(Instruction::JumpIfFalse(0)));
            let then_done = compile(*then_branch, tested.emit(Instruction::JumpIfFalse(0)));
            let skipped = then_done.emit(Instruction::Jump(0)).patch(
                tested.len(),
                Instruction::JumpIfFalse(jump_offset(tested.len(), then_done.len() + 1)),
            );
            match else_branch {
                Some(branch) => lemma_compile_grows(*branch, skipped),
                None => {},
            }
        },
        ASTView::ForStmt { init, cond, update, body, .. } => {
            let started = compile(*init, g);
            let tested = compile(*cond, started);
            lemma_compile_grows(*init, g);
            lemma_compile_grows(*cond, started);
            lemma_compile_grows(*body, tested.emit(Instruction::JumpIfFalse(0)));
            lemma_compile_grows(
                *update,
                compile(*body, tested.emit(Instruction::JumpIfFalse(0))),
            );
        },
        _ => {},
    }
}

/// Compiling a list only appends.
pub proof fn lemma_compile_list_grows(nodes: Seq<ASTView>, k: nat, g: GenView)
    requires
        k <= nodes.len(),
    ensures
        compile_list(nodes, k, g).len() >= g.len(),
    decreases nodes, k,
{
    if k > 0 {
        lemma_compile_list_grows(nodes, (k - 1) as nat, g);
        lemma_compile_grows(nodes[k - 1], compile_list(nodes, (k - 1) as nat, g));
    }
}

/// The models of the first `k` nodes are the models of the nodes.
pub proof fn lemma_node_models(nodes: Seq<ASTNode>, k: nat)
    requires
        k <= nodes.len(),
    ensures
        node_models(nodes, k).len() == k,
        forall|i: int| 0 <= i < k ==> #[trigger] node_models(nodes, k)[i] == nodes[i]@,
    decreases k,
{
    if k > 0 {
        lemma_node_models(nodes, (k - 1) as nat);
    }
}

/// The offset of a jump at position `from` that lands at position `to`.
fn offset_between(from: usize, to: usize) -> (offset: isize)
    ensures
        offset == jump_offset(from as int, to as int),
{
    if to > from {
        let distance = to - from - 1;
        if distance > isize::MAX as usize {
            isize::MAX
        } else {
            distance as isize
        }
    } else {
        let back = from - to;
        if back > isize::MAX as usize {
            isize::MIN
        } else {
            -(back as isize) - 1
        }
    }
}

/// Generates bytecode from a syntax tree, in one scope.
pub struct BytecodeGenerator {
    chunk: BytecodeChunk,
    scope: Scope,
}

impl View for BytecodeGenerator {
    type V = GenView;

    closed spec fn view(&self) -> GenView {
        GenView { chunk: self.chunk@, scope: self.scope@ }
    }
}

impl BytecodeGenerator {
    /// A generator with an empty chunk that resolves names in `scope`.
    pub fn new(scope: Scope) -> (generator: BytecodeGenerator)
        ensures
            generator@ == (GenView {
                chunk: ChunkView {
                    instructions: Seq::empty(),
                    constants: Seq::empty(),
                    local_count: 0,
                },
                scope: scope@,
            }),
    {
        BytecodeGenerator { chunk: BytecodeChunk::new(), scope }
    }

    /// Compiles `ast` onto the chunk built so far, sets the chunk's slot
    /// count to the number of variables in the scope, and returns a copy of
    /// the chunk.
    pub fn generate(&mut self, ast: &ASTNode) -> (chunk: BytecodeChunk)
        ensures
            final(self)@ == compile(ast@, old(self)@).finish(),
            chunk@ == final(self)@.chunk,
    {
        self.compile_node(ast);
        self.chunk.set_local_count(self.scope.local_count());
        self.chunk.duplicate()
    }

    /// Compiles the nodes of `nodes` in order.
    fn compile_nodes(&mut self, nodes: &Vec<ASTNode>)
        ensures
            final(self)@ == compile_list(
                node_models(nodes@, nodes@.len()),
                nodes@.len(),
                old(self)@,
            ),
        decreases nodes, 0nat,
    {
        broadcast use axiom_vec_index_decreases;

        let ghost models = node_models(nodes@, nodes@.len());
        proof {
            lemma_node_models(nodes@, nodes@.len());
        }
        let mut i: usize = 0;
        while i < nodes.len()
            invariant
                i <= nodes.len(),
                models == node_models(nodes@, nodes@.len()),
                models.len() == nodes@.len(),
                forall|k: int| 0 <= k < nodes@.len() ==> #[trigger] models[k] == nodes@[k]@,
                self@ == compile_list(models, i as nat, old(self)@),
            decreases nodes.len() - i,
        {
            self.compile_node(&nodes[i]);
            i += 1;
        }
    }

    /// Appends `instruction` to the chunk.
    fn emit(&mut self, instruction: Instruction)
        ensures
            final(self)@ == old(self)@.emit(instruction),
    {
        self.chunk.emit(instruction);
    }

    /// Puts `instruction` in place of the one at `index`.
    fn patch(&mut self, index: usize, instruction: Instruction)
        requires
            index < old(self)@.len(),
        ensures
            final(self)@ == old(self)@.patch(index as int, instruction),
    {
        self.chunk.instructions.set(index, instruction);
    }

    /// The number of instructions built so far.
    fn position(&self) -> (position: usize)
        ensures
            position == self@.len(),
    {
        self.chunk.instructions.len()
    }

    /// Compiles an `if` statement.
    fn compile_if(&mut self, node: &ASTNode)
        requires
            node is IfStmt,
        ensures
            final(self)@ == compile(node@, old(self)@),
        decreases node, 0nat,
    {
        match node {
            ASTNode::IfStmt { cond, then_branch, else_branch, .. } => {
                self.compile_node(cond);
                let test_at = self.position();
                self.emit(Instruction::JumpIfFalse(0));
                let ghost emitted = self@;
                self.compile_node(then_branch);
                proof {
                    lemma_compile_grows(then_branch@, emitted);
                }
                let skip_at = self.position();
                self.emit(Instruction::Jump(0));
                let else_start = self.position();
                self.patch(test_at, Instruction::JumpIfFalse(offset_between(test_at, else_start)));
                let ghost skipped = self@;
                match else_branch {
                    Some(branch) => {
                        self.compile_node(branch);
                        proof {
                            lemma_compile_grows(branch@, skipped);
                        }
                    },
                    None => {},
                }
                let end = self.position();
                self.patch(skip_at, Instruction::Jump(offset_between(skip_at, end)));
            },
            _ => {},
        }
    }

    /// Compiles a `for` loop.
    fn compile_for(&mut self, node: &ASTNode)
        requires
            node is ForStmt,
        ensures
            final(self)@ == compile(node@, old(self)@),
        decreases node, 0nat,
    {
        match node {
            ASTNode::ForStmt { init, cond, update, body, .. } => {
                self.compile_node(init);
                let loop_start = self.position();
                self.compile_node(cond);
                let test_at = self.position();
                self.emit(Instruction::JumpIfFalse(0));
                let ghost emitted = self@;
                self.compile_node(body);
                proof {
                    lemma_compile_grows(body@, emitted);
                }
                let ghost bodied = self@;
                self.compile_node(update);
                proof {
                    lemma_compile_grows(update@, bodied);
                }
                let current = self.position();
                self.emit(Instruction::Jump(offset_between(current, loop_start)));
                let end = self.position();
                self.patch(test_at, Instruction::JumpIfFalse(offset_between(test_at, end)));
            },
            _ => {},
        }
    }

    /// Compiles a call.
    fn compile_call(&mut self, node: &ASTNode)
        requires
            node is CallExpr,
        ensures
            final(self)@ == compile(node@, old(self)@),
        decreases node, 0nat,
    {
        broadcast use axiom_vec_index_decreases;

        match node {
            ASTNode::CallExpr { callee, args, .. } => {
                proof {
                    reveal_with_fuel(ASTNode::model, 2);
                    lemma_node_models(args@, args@.len());
                }
                let is_print = match &**callee {
                    ASTNode::Identifier { name, .. } => *name == String::from_str("print")
                        && args.len() == 1,
                    _ => false,
                };
                if is_print {
                    assert(node_models(args@, args@.len())[0] == args@[0]@);
                    self.compile_node(&args[0]);
                    self.emit(Instruction::Print);
                } else {
                    self.compile_node(callee);
                    self.compile_nodes(args);
                    self.emit(Instruction::Call(args.len()));
                }
            },
            _ => {},
        }
    }

    /// Compiles a binary expression.
    fn compile_binary(&mut self, node: &ASTNode)
        requires
            node is BinaryExpr,
        ensures
            final(self)@ == compile(node@, old(self)@),
        decreases node, 0nat,
    {
        match node {
            ASTNode::BinaryExpr { op, left, right, .. } => {
                self.compile_node(left);
                self.compile_node(right);
                match op {
                    BinOp::Add => self.emit(Instruction::Add),
                    BinOp::Sub => self.emit(Instruction::Sub),
                    BinOp::Mul => self.emit(Instruction::Mul),
                    BinOp::Div => self.emit(Instruction::Div),
                    _ => {},
                }
            },
            _ => {},
        }
    }

    /// Compiles one node.
    fn compile_node(&mut self, node: &ASTNode)
        ensures
            final(self)@ == compile(node@, old(self)@),
        decreases node, 1nat,
    {
        match node {
            ASTNode::Program(statements) => {
                proof {
                    lemma_node_models(statements@, statements@.len());
                }
                self.compile_nodes(statements);
            },
            ASTNode::NumberLiteral { value, .. } => {
                let index = self.chunk.add_constant(Value::Number(*value));
                self.chunk.emit(Instruction::LoadConst(index));
            },
            ASTNode::Identifier { name, .. } => {
                match self.scope.lookup(name.as_str()) {
                    Some(index) => {
                        self.emit(Instruction::LoadLocal(index));
                    },
                    None => {},
                }
            },
            ASTNode::BinaryExpr { .. } => {
                self.compile_binary(node);
            },
            ASTNode::LetDecl { name, init, .. } => {
                self.compile_node(init);
                let index = self.scope.declare(name.clone());
                self.emit(Instruction::StoreLocal(index));
            },
            ASTNode::CallExpr { .. } => {
                self.compile_call(node);
            },
            ASTNode::ReturnStmt { value, .. } => {
                self.compile_node(value);
                self.emit(Instruction::Return);
            },
            ASTNode::BlockStmt { statements, .. } => {
                proof {
                    lemma_node_models(statements@, statements@.len());
                }
                self.compile_nodes(statements);
            },
            ASTNode::IfStmt { .. } => {
                self.compile_if(node);
            },
            ASTNode::ForStmt { .. } => {
                self.compile_for(node);
            },
            ASTNode::FunctionDecl { .. } => {},
        }
    }
}

} // verus!
