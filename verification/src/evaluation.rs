//! Direct evaluation of arithmetic expressions, and its agreement with the
//! interpreter and with constant folding.

use vstd::prelude::*;
use crate::ast::{ASTView, BinOp};
use crate::binary64;
use crate::bytecode::{ChunkView, Instruction};
use crate::codegen::{compile, GenView};
use crate::error::RuntimeErrorView;
use crate::interpreter::{lemma_run_unfold, Arithmetic, FrameView, RunResult, Step};
use crate::ir::NodeView;
use crate::scope::ScopeView;
use crate::turbofan::{
    arithmetic_of, constant_value, folded, folded_node, lemma_step_wf, lower_all, Lowering,
};
use crate::types::{FunctionId, Value};

verus! {

/// The arithmetic operation of a binary operator, if it is one of the four.
pub open spec fn operation(op: BinOp) -> Option<Arithmetic> {
    match op {
        BinOp::Add => Some(Arithmetic::Add),
        BinOp::Sub => Some(Arithmetic::Sub),
        BinOp::Mul => Some(Arithmetic::Mul),
        BinOp::Div => Some(Arithmetic::Div),
        _ => None,
    }
}

/// Whether `node` is built from number literals and the four arithmetic
/// operators alone.
pub open spec fn is_arithmetic(node: ASTView) -> bool
    decreases node,
{
    match node {
        ASTView::NumberLiteral { .. } => true,
        ASTView::BinaryExpr { op, left, right, .. } => operation(op) is Some && is_arithmetic(*left)
            && is_arithmetic(*right),
        _ => false,
    }
}

/// The value of an arithmetic expression, evaluated directly: the left
/// operand first, then the right, then the operation. There is none if a
/// divisor is zero.
pub open spec fn evaluate(node: ASTView) -> Option<u64>
    decreases node,
{
    match node {
        ASTView::NumberLiteral { value, .. } => Some(value),
        ASTView::BinaryExpr { op, left, right, .. } => match (
            evaluate(*left),
            evaluate(*right),
            operation(op),
        ) {
            (Some(l), Some(r), Some(operation)) => {
                if operation == Arithmetic::Div && binary64::is_zero(r) {
                    None
                } else {
                    Some(operation.apply_spec(l, r))
                }
            },
            _ => None,
        },
        _ => None,
    }
}

/// The number of nodes of an arithmetic expression, which is the number of
/// instructions it compiles to.
pub open spec fn size(node: ASTView) -> nat
    decreases node,
{
    match node {
        ASTView::BinaryExpr { left, right, .. } => size(*left) + size(*right) + 1,
        _ => 1,
    }
}

/// The number of literals of an arithmetic expression, which is the number
/// of constants it compiles to.
pub open spec fn literals(node: ASTView) -> nat
    decreases node,
{
    match node {
        ASTView::BinaryExpr { left, right, .. } => literals(*left) + literals(*right),
        _ => 1,
    }
}

/// The instruction of an arithmetic operation.
pub open spec fn instruction_of(operation: Arithmetic) -> Instruction {
    match operation {
        Arithmetic::Add => Instruction::Add,
        Arithmetic::Sub => Instruction::Sub,
        Arithmetic::Mul => Instruction::Mul,
        Arithmetic::Div => Instruction::Div,
    }
}

/// The instructions of an arithmetic expression whose first constant gets
/// the index `base`: the operands in postfix order.
pub open spec fn code(node: ASTView, base: nat) -> Seq<Instruction>
    decreases node,
{
    match node {
        ASTView::NumberLiteral { .. } => seq![Instruction::LoadConst(base as usize)],
        ASTView::BinaryExpr { op, left, right, .. } => (code(*left, base) + code(
            *right,
            base + literals(*left),
        )).push(instruction_of(operation(op)->0)),
        _ => Seq::empty(),
    }
}

/// The constants of an arithmetic expression: its literals from left to
/// right.
pub open spec fn constants(node: ASTView) -> Seq<Value>
    decreases node,
{
    match node {
        ASTView::NumberLiteral { value, .. } => seq![Value::Number(value)],
        ASTView::BinaryExpr { left, right, .. } => constants(*left) + constants(*right),
        _ => Seq::empty(),
    }
}

/// An arithmetic expression has as many instructions as nodes and as many
/// constants as literals.
pub proof fn lemma_code_len(node: ASTView, base: nat)
    requires
        is_arithmetic(node),
    ensures
        code(node, base).len() == size(node),
        constants(node).len() == literals(node),
        literals(node) <= size(node),
        size(node) >= 1,
    decreases node,
{
    match node {
        ASTView::BinaryExpr { op, left, right, .. } => {
            lemma_code_len(*left, base);
            lemma_code_len(*right, base + literals(*left));
        },
        _ => {},
    }
}

/// An arithmetic expression compiles to its code and constants, appended to
/// what the generator holds; the scope plays no part.
pub proof fn lemma_compile_arithmetic(node: ASTView, g: GenView)
    requires
        is_arithmetic(node),
    ensures
        compile(node, g) == (GenView {
            chunk: ChunkView {
                instructions: g.chunk.instructions + code(node, g.chunk.constants.len()),
                constants: g.chunk.constants + constants(node),
                local_count: g.chunk.local_count,
            },
            scope: g.scope,
        }),
    decreases node,
{
    match node {
        ASTView::NumberLiteral { value, .. } => {
            assert(g.chunk.instructions.push(
                Instruction::LoadConst(g.chunk.constants.len() as usize),
            ) =~= g.chunk.instructions + code(node, g.chunk.constants.len()));
            assert(g.chunk.constants.push(Value::Number(value)) =~= g.chunk.constants + constants(
                node,
            ));
        },
        ASTView::BinaryExpr { op, left, right, .. } => {
            lemma_compile_arithmetic(*left, g);
            let g1 = compile(*left, g);
            lemma_compile_arithmetic(*right, g1);
            let g2 = compile(*right, g1);
            lemma_code_len(*left, g.chunk.constants.len());
            let base = g.chunk.constants.len();
            assert(g2.chunk.instructions.push(instruction_of(operation(op)->0))
                =~= g.chunk.instructions + code(node, base));
            assert(g2.chunk.constants =~= g.chunk.constants + constants(node));
        },
        _ => {},
    }
}


/// Whether `chunk` holds the code of `node` from position `at`, with its
/// constants from index `base`.
pub open spec fn holds(chunk: ChunkView, node: ASTView, at: int, base: int) -> bool {
    &&& 0 <= at
    &&& at + size(node) <= chunk.instructions.len()
    &&& 0 <= base
    &&& base + literals(node) <= chunk.constants.len()
    &&& chunk.constants.len() <= usize::MAX
    &&& chunk.instructions.subrange(at, at + size(node)) == code(node, base as nat)
    &&& chunk.constants.subrange(base, base + literals(node)) == constants(node)
}

/// A chunk that holds a binary expression holds its operands, the left one
/// first, and then its operation.
pub proof fn lemma_holds_operands(chunk: ChunkView, node: ASTView, at: int, base: int)
    requires
        is_arithmetic(node),
        node is BinaryExpr,
        holds(chunk, node, at, base),
    ensures
        ({
            let left = *node->BinaryExpr_left;
            let right = *node->BinaryExpr_right;
            &&& holds(chunk, left, at, base)
            &&& holds(chunk, right, at + size(left), base + literals(left))
            &&& chunk.instructions[at + size(left) + size(right)] == instruction_of(
                operation(node->BinaryExpr_op)->0,
            )
        }),
{
    let left = *node->BinaryExpr_left;
    let right = *node->BinaryExpr_right;
    lemma_code_len(left, base as nat);
    lemma_code_len(right, (base + literals(left)) as nat);
    lemma_code_len(node, base as nat);
    let whole = chunk.instructions.subrange(at, at + size(node));
    let pool = chunk.constants.subrange(base, base + literals(node));
    let sl = size(left) as int;
    let sr = size(right) as int;
    let ll = literals(left) as int;
    let lr = literals(right) as int;
    assert(chunk.instructions.subrange(at, at + sl) =~= whole.subrange(0, sl));
    assert(whole.subrange(0, sl) =~= code(left, base as nat));
    assert(chunk.instructions.subrange(at + sl, at + sl + sr) =~= whole.subrange(sl, sl + sr));
    assert(whole.subrange(sl, sl + sr) =~= code(right, (base + ll) as nat));
    assert(chunk.instructions[at + sl + sr] == whole[sl + sr]);
    assert(chunk.constants.subrange(base, base + ll) =~= pool.subrange(0, ll));
    assert(pool.subrange(0, ll) =~= constants(left));
    assert(chunk.constants.subrange(base + ll, base + ll + lr) =~= pool.subrange(ll, ll + lr));
    assert(pool.subrange(ll, ll + lr) =~= constants(right));
}

/// Whether `chunk` spells the arithmetic expression `node` from position
/// `at` on, in postfix order: a literal is the load of a constant that is
/// its number, and a binary expression is its left operand, its right
/// operand, and then its operation. Where in the pool the constants lie
/// does not matter, and one constant may serve several literals.
pub open spec fn spells(chunk: ChunkView, at: int, node: ASTView) -> bool
    decreases node,
{
    match node {
        ASTView::NumberLiteral { value, .. } => {
            &&& 0 <= at < chunk.instructions.len()
            &&& chunk.instructions[at] matches Instruction::LoadConst(index)
            &&& index < chunk.constants.len()
            &&& chunk.constants[index as int] == Value::Number(value)
        },
        ASTView::BinaryExpr { op, left, right, .. } => {
            &&& operation(op) is Some
            &&& spells(chunk, at, *left)
            &&& spells(chunk, at + size(*left), *right)
            &&& at + size(*left) + size(*right) < chunk.instructions.len()
            &&& chunk.instructions[at + size(*left) + size(*right)] == instruction_of(
                operation(op)->0,
            )
        },
        _ => false,
    }
}

/// What a chunk spells is an arithmetic expression, and lies within the
/// chunk.
pub proof fn lemma_spells_bounds(chunk: ChunkView, at: int, node: ASTView)
    requires
        spells(chunk, at, node),
    ensures
        is_arithmetic(node),
        0 <= at,
        at + size(node) <= chunk.instructions.len(),
        size(node) >= 1,
    decreases node,
{
    match node {
        ASTView::BinaryExpr { op, left, right, .. } => {
            lemma_spells_bounds(chunk, at, *left);
            lemma_spells_bounds(chunk, at + size(*left), *right);
        },
        _ => {},
    }
}

/// A run whose first instruction goes on without printing is the run of
/// the next frame on one instruction less.
pub proof fn lemma_run_continues(frame: FrameView, budget: nat, next: FrameView)
    requires
        !frame.halted(),
        budget > 0,
        frame.step() == (Step::Continue { frame: next, printed: Seq::empty() }),
    ensures
        frame.run(budget) == next.run((budget - 1) as nat),
{
    lemma_run_unfold(frame, budget);
    let rest = next.run((budget - 1) as nat);
    assert(Seq::<Value>::empty() + rest.printed =~= rest.printed);
}

/// The frame after an expression of value `value` has run in `frame`: the
/// instruction pointer is past its code, and its value is on the stack.
pub open spec fn after(frame: FrameView, node: ASTView, value: u64) -> FrameView {
    FrameView {
        ip: frame.ip + size(node),
        stack: frame.stack.push(Value::Number(value)),
        ..frame
    }
}

/// The run of a frame that stands before a literal: it goes on behind the
/// load with the literal's number pushed.
proof fn lemma_run_literal(node: ASTView, frame: FrameView, budget: nat)
    requires
        node is NumberLiteral,
        spells(frame.chunk, frame.ip, node),
        budget >= 1,
    ensures
        frame.run(budget) == after(frame, node, node->NumberLiteral_value).run(
            (budget - 1) as nat,
        ),
{
    reveal(FrameView::step);
    lemma_run_continues(frame, budget, after(frame, node, node->NumberLiteral_value));
}

/// The run of a frame that stands before an arithmetic instruction, with
/// the numbers `left` and `right` on top of its stack: a division by zero
/// fails, and any other operation goes on with the result in their place.
proof fn lemma_run_operation(
    frame: FrameView,
    operation: Arithmetic,
    below: Seq<Value>,
    left: u64,
    right: u64,
    budget: nat,
)
    requires
        0 <= frame.ip < frame.chunk.instructions.len(),
        frame.chunk.instructions[frame.ip] == instruction_of(operation),
        frame.stack == below.push(Value::Number(left)).push(Value::Number(right)),
        budget >= 1,
    ensures
        frame.run(budget) == if operation == Arithmetic::Div && binary64::is_zero(right) {
            RunResult { outcome: Err(RuntimeErrorView::DivisionByZero), printed: Seq::empty() }
        } else {
            FrameView {
                ip: frame.ip + 1,
                stack: below.push(Value::Number(operation.apply_spec(left, right))),
                ..frame
            }.run((budget - 1) as nat)
        },
{
    reveal(FrameView::step);
    lemma_run_unfold(frame, budget);
    let n = frame.stack.len() as int;
    assert(frame.stack.subrange(0, n - 2) =~= below);
    if operation == Arithmetic::Div && binary64::is_zero(right) {
    } else {
        let next = FrameView {
            ip: frame.ip + 1,
            stack: below.push(Value::Number(operation.apply_spec(left, right))),
            ..frame
        };
        lemma_run_continues(frame, budget, next);
    }
}

/// The run of a frame that stands before the code of an arithmetic
/// expression: if the expression has a value, the run goes on behind the
/// code with the value pushed; if not, it fails with a division by zero.
pub proof fn lemma_run_arithmetic(node: ASTView, frame: FrameView, budget: nat)
    requires
        spells(frame.chunk, frame.ip, node),
        budget >= size(node),
    ensures
        match evaluate(node) {
            Some(value) => frame.run(budget) == after(frame, node, value).run(
                (budget - size(node)) as nat,
            ),
            None => frame.run(budget) == (RunResult {
                outcome: Err(RuntimeErrorView::DivisionByZero),
                printed: Seq::empty(),
            }),
        },
    decreases node,
{
    lemma_spells_bounds(frame.chunk, frame.ip, node);
    match node {
        ASTView::NumberLiteral { value, .. } => {
            lemma_run_literal(node, frame, budget);
        },
        ASTView::BinaryExpr { op, left, right, .. } => {
            lemma_spells_bounds(frame.chunk, frame.ip, *left);
            lemma_spells_bounds(frame.chunk, frame.ip + size(*left), *right);
            lemma_run_arithmetic(*left, frame, budget);
            match evaluate(*left) {
                Some(l) => {
                    let f1 = after(frame, *left, l);
                    let b1 = (budget - size(*left)) as nat;
                    lemma_run_arithmetic(*right, f1, b1);
                    match evaluate(*right) {
                        Some(r) => {
                            let f2 = after(f1, *right, r);
                            let b2 = (b1 - size(*right)) as nat;
                            let operation = operation(op)->0;
                            lemma_run_operation(f2, operation, frame.stack, l, r, b2);
                            if !(operation == Arithmetic::Div && binary64::is_zero(r)) {
                                let value = operation.apply_spec(l, r);
                                assert(after(frame, node, value) == (FrameView {
                                    ip: f2.ip + 1,
                                    stack: frame.stack.push(Value::Number(value)),
                                    ..f2
                                }));
                            }
                        },
                        None => {},
                    }
                },
                None => {},
            }
        },
        _ => {},
    }
}

/// For a chunk that spells, in postfix order, an expression built from
/// number literals and the four arithmetic operators alone, and holds no
/// other instruction, the interpreter returns the value of the
/// expression's direct evaluation, or fails with a division by zero where a
/// divisor is zero. It prints nothing.
///
/// The budget has to cover the chunk's instructions.
pub proof fn law_interpreter_evaluates(
    chunk: ChunkView,
    node: ASTView,
    func_id: FunctionId,
    budget: nat,
)
    requires
        spells(chunk, 0, node),
        chunk.instructions.len() == size(node),
        budget >= size(node),
    ensures
        FrameView::initial(chunk, func_id).run(budget) == (RunResult {
            outcome: match evaluate(node) {
                Some(value) => Ok(Value::Number(value)),
                None => Err(RuntimeErrorView::DivisionByZero),
            },
            printed: Seq::empty(),
        }),
{
    let frame = FrameView::initial(chunk, func_id);
    lemma_run_arithmetic(node, frame, budget);
    match evaluate(node) {
        Some(value) => {
            lemma_run_unfold(after(frame, node, value), (budget - size(node)) as nat);
        },
        None => {},
    }
}

/// A chunk that holds the code and the constants of an arithmetic
/// expression spells it.
pub proof fn lemma_holds_spells(chunk: ChunkView, node: ASTView, at: int, base: int)
    requires
        is_arithmetic(node),
        holds(chunk, node, at, base),
    ensures
        spells(chunk, at, node),
    decreases node,
{
    lemma_code_len(node, base as nat);
    match node {
        ASTView::NumberLiteral { value, .. } => {
            assert(chunk.constants.subrange(base, base + 1)[0] == chunk.constants[base]);
            assert(chunk.instructions.subrange(at, at + 1)[0] == chunk.instructions[at]);
        },
        ASTView::BinaryExpr { op, left, right, .. } => {
            lemma_holds_operands(chunk, node, at, base);
            lemma_code_len(*left, base as nat);
            lemma_code_len(*right, (base + literals(*left)) as nat);
            lemma_holds_spells(chunk, *left, at, base);
            lemma_holds_spells(chunk, *right, at + size(*left), base + literals(*left));
        },
        _ => {},
    }
}

/// The chunk that the generator builds for `node` alone, in `scope`.
pub open spec fn compiled_alone(node: ASTView, scope: ScopeView) -> ChunkView {
    compile(
        node,
        GenView {
            chunk: ChunkView {
                instructions: Seq::empty(),
                constants: Seq::empty(),
                local_count: 0,
            },
            scope,
        },
    ).finish().chunk
}

/// The chunk of an arithmetic expression alone is its code and constants.
pub proof fn lemma_compiled_alone(node: ASTView, scope: ScopeView)
    requires
        is_arithmetic(node),
    ensures
        compiled_alone(node, scope).instructions == code(node, 0),
        compiled_alone(node, scope).constants == constants(node),
{
    let start = GenView {
        chunk: ChunkView { instructions: Seq::empty(), constants: Seq::empty(), local_count: 0 },
        scope,
    };
    lemma_compile_arithmetic(node, start);
    assert(Seq::<Instruction>::empty() + code(node, 0) =~= code(node, 0));
    assert(Seq::<Value>::empty() + constants(node) =~= constants(node));
}

/// The bytecode that the generator builds for an arithmetic expression
/// alone spells that expression and holds no other instruction, whatever
/// the scope: so what holds of every such chunk holds of it.
pub proof fn law_generator_spells_expression(node: ASTView, scope: ScopeView)
    requires
        is_arithmetic(node),
        size(node) <= usize::MAX,
    ensures
        spells(compiled_alone(node, scope), 0, node),
        compiled_alone(node, scope).instructions.len() == size(node),
{
    let chunk = compiled_alone(node, scope);
    lemma_compiled_alone(node, scope);
    lemma_code_len(node, 0);
    assert(chunk.instructions.subrange(0, size(node) as int) =~= code(node, 0));
    assert(chunk.constants.subrange(0, literals(node) as int) =~= constants(node));
    lemma_holds_spells(chunk, node, 0, 0);
}

/// The state after lowering `instructions` in order, from `state` on.
pub open spec fn lower_onto(
    state: Lowering,
    instructions: Seq<Instruction>,
    pool: Seq<Value>,
) -> Lowering
    decreases instructions.len(),
{
    if instructions.len() == 0 {
        state
    } else {
        lower_onto(state, instructions.drop_last(), pool).step(instructions.last(), pool)
    }
}

/// Lowering a whole chunk is lowering onto the start.
pub proof fn lemma_lower_all_is_onto(instructions: Seq<Instruction>, pool: Seq<Value>)
    ensures
        lower_all(instructions, pool) == lower_onto(Lowering::start(), instructions, pool),
    decreases instructions.len(),
{
    if instructions.len() > 0 {
        lemma_lower_all_is_onto(instructions.drop_last(), pool);
    }
}

/// Lowering two sequences in a row is lowering the second onto the first.
pub proof fn lemma_lower_onto_concat(
    state: Lowering,
    first: Seq<Instruction>,
    second: Seq<Instruction>,
    pool: Seq<Value>,
)
    ensures
        lower_onto(state, first + second, pool) == lower_onto(
            lower_onto(state, first, pool),
            second,
            pool,
        ),
    decreases second.len(),
{
    if second.len() == 0 {
        assert(first + second =~= first);
    } else {
        assert((first + second).drop_last() =~= first + second.drop_last());
        lemma_lower_onto_concat(state, first, second.drop_last(), pool);
    }
}

/// The constant value of a node depends on the nodes up to it alone.
pub proof fn lemma_constant_value_prefix(shorter: Seq<NodeView>, longer: Seq<NodeView>, i: int)
    requires
        0 <= i < shorter.len() <= longer.len(),
        forall|j: int| 0 <= j < shorter.len() ==> longer[j] == shorter[j],
    ensures
        constant_value(longer, i) == constant_value(shorter, i),
    decreases i,
{
    match arithmetic_of(shorter[i]) {
        Some((op, left, right)) => {
            if left < i && right < i {
                lemma_constant_value_prefix(shorter, longer, left as int);
                lemma_constant_value_prefix(shorter, longer, right as int);
            }
        },
        None => {},
    }
}

/// Lowering one more instruction is one more step.
proof fn lemma_lower_onto_push(
    state: Lowering,
    instructions: Seq<Instruction>,
    instruction: Instruction,
    pool: Seq<Value>,
)
    ensures
        lower_onto(state, instructions.push(instruction), pool) == lower_onto(
            state,
            instructions,
            pool,
        ).step(instruction, pool),
{
    assert(instructions.push(instruction).drop_last() =~= instructions);
}

/// What lowering an arithmetic instruction adds to a well-formed state
/// with the ids `left` and `right` on top of its stack: the node of the
/// operation on the two, whose id takes their place.
proof fn lemma_lower_operation(
    state: Lowering,
    operation: Arithmetic,
    below: Seq<usize>,
    left: usize,
    right: usize,
    pool: Seq<Value>,
)
    requires
        state.wf(),
        state.nodes.len() < usize::MAX,
        state.stack == below.push(left).push(right),
    ensures
        ({
            let lowered = state.step(instruction_of(operation), pool);
            let id = state.nodes.len() as usize;
            &&& lowered.wf()
            &&& lowered.nodes.len() == state.nodes.len() + 1
            &&& lowered.nodes == state.nodes.push(lowered.nodes[id as int])
            &&& arithmetic_of(lowered.nodes[id as int]) == Some((operation, left, right))
            &&& lowered.stack == below.push(id)
        }),
{
    let lowered = state.step(instruction_of(operation), pool);
    lemma_step_wf(state, instruction_of(operation), pool);
    let n = state.stack.len() as int;
    assert(state.stack.subrange(0, n - 2) =~= below);
    assert(lowered.nodes =~= state.nodes.push(lowered.nodes[state.nodes.len() as int]));
}

/// What lowering the code of an arithmetic expression adds to a well-formed
/// state: one node for each node of the expression, the last of them for
/// the expression itself, whose id is pushed. The constant value of that
/// node is the value of the expression, and where the expression has a
/// value, each of the new nodes has one.
#[verifier::rlimit(60)]
#[verifier::spinoff_prover]
pub proof fn lemma_lower_arithmetic(node: ASTView, state: Lowering, chunk: ChunkView, at: int)
    requires
        spells(chunk, at, node),
        state.wf(),
        state.nodes.len() + size(node) <= usize::MAX,
    ensures
        ({
            let lowered = lower_onto(
                state,
                chunk.instructions.subrange(at, at + size(node)),
                chunk.constants,
            );
            let root = lowered.nodes.len() - 1;
            &&& lowered.wf()
            &&& lowered.nodes.len() == state.nodes.len() + size(node)
            &&& forall|j: int| 0 <= j < state.nodes.len() ==> lowered.nodes[j] == state.nodes[j]
            &&& lowered.stack == state.stack.push(root as usize)
            &&& constant_value(lowered.nodes, root) == evaluate(node)
            &&& !(lowered.nodes[root] is Constant) ==> arithmetic_of(lowered.nodes[root]) is Some
            &&& evaluate(node) is Some ==> forall|j: int|
                state.nodes.len() <= j < lowered.nodes.len() ==> (#[trigger] constant_value(
                    lowered.nodes,
                    j,
                )) is Some
        }),
    decreases node,
{
    lemma_spells_bounds(chunk, at, node);
    let pool = chunk.constants;
    match node {
        ASTView::NumberLiteral { value, .. } => {
            let instruction = chunk.instructions[at];
            let program = chunk.instructions.subrange(at, at + 1);
            assert(program =~= Seq::<Instruction>::empty().push(instruction));
            lemma_lower_onto_push(state, Seq::empty(), instruction, pool);
            assert(lower_onto(state, Seq::empty(), pool) == state);
            lemma_step_wf(state, instruction, pool);
        },
        ASTView::BinaryExpr { op, left, right, .. } => {
            let sl = size(*left) as int;
            let sr = size(*right) as int;
            lemma_spells_bounds(chunk, at, *left);
            lemma_spells_bounds(chunk, at + sl, *right);
            let first = chunk.instructions.subrange(at, at + sl);
            let second = chunk.instructions.subrange(at + sl, at + sl + sr);
            let operation = operation(op)->0;
            let instruction = instruction_of(operation);
            let program = chunk.instructions.subrange(at, at + size(node));
            assert(program =~= (first + second).push(instruction));
            lemma_lower_onto_push(state, first + second, instruction, pool);
            lemma_lower_onto_concat(state, first, second, pool);
            lemma_lower_arithmetic(*left, state, chunk, at);
            let r1 = lower_onto(state, first, pool);
            lemma_lower_arithmetic(*right, r1, chunk, at + sl);
            let r2 = lower_onto(r1, second, pool);
            let r3 = r2.step(instruction, pool);
            assert(lower_onto(state, program, pool) == r3);
            let id1 = (r1.nodes.len() - 1) as usize;
            let id2 = (r2.nodes.len() - 1) as usize;
            let id3 = r3.nodes.len() - 1;
            lemma_lower_operation(r2, operation, state.stack, id1, id2, pool);
            lemma_constant_value_prefix(r1.nodes, r2.nodes, id1 as int);
            lemma_constant_value_prefix(r2.nodes, r3.nodes, id1 as int);
            lemma_constant_value_prefix(r2.nodes, r3.nodes, id2 as int);
            assert forall|j: int| 0 <= j < state.nodes.len() implies r3.nodes[j]
                == state.nodes[j] by {
                assert(r2.nodes[j] == r1.nodes[j]);
            }
            if evaluate(node) is Some {
                assert forall|j: int| state.nodes.len() <= j < r3.nodes.len() implies (
                #[trigger] constant_value(r3.nodes, j)) is Some by {
                    if j < r1.nodes.len() {
                        assert(constant_value(r1.nodes, j) is Some);
                        lemma_constant_value_prefix(r1.nodes, r2.nodes, j);
                        lemma_constant_value_prefix(r2.nodes, r3.nodes, j);
                    } else if j < r2.nodes.len() {
                        assert(constant_value(r2.nodes, j) is Some);
                        lemma_constant_value_prefix(r2.nodes, r3.nodes, j);
                    }
                }
            }
        },
        _ => {},
    }
}

/// Constant folding of the IR of a chunk that spells, in postfix order, an
/// expression built from number literals and the four arithmetic operators
/// alone, and holds no other instruction: the node of the expression folds
/// to one constant, its value that of direct evaluation, and so does every
/// node below it. The sweeps may visit the nodes in any order and any
/// number of times: `folded` is what they converge to.
///
/// Where a divisor is zero the expression has no value, and its node is not
/// folded.
pub proof fn law_folding_evaluates(chunk: ChunkView, node: ASTView)
    requires
        spells(chunk, 0, node),
        chunk.instructions.len() == size(node),
        size(node) <= usize::MAX,
    ensures
        ({
            let nodes = lower_all(chunk.instructions, chunk.constants).nodes;
            let root = size(node) - 1;
            &&& folded(nodes).len() == size(node)
            &&& match evaluate(node) {
                Some(value) => {
                    &&& folded(nodes)[root] == (NodeView::Constant { value, id: root as usize })
                    &&& forall|j: int|
                        0 <= j < size(node) ==> (#[trigger] folded(nodes)[j]) is Constant
                },
                None => folded(nodes)[root] == nodes[root] && arithmetic_of(nodes[root]) is Some,
            }
        }),
{
    lemma_spells_bounds(chunk, 0, node);
    lemma_lower_all_is_onto(chunk.instructions, chunk.constants);
    assert(chunk.instructions.subrange(0, size(node) as int) =~= chunk.instructions);
    lemma_lower_arithmetic(node, Lowering::start(), chunk, 0);
    let lowered = lower_onto(Lowering::start(), chunk.instructions, chunk.constants);
    assert(lower_all(chunk.instructions, chunk.constants) == lowered);
    let nodes = lowered.nodes;
    let root = size(node) - 1;
    assert(nodes.len() == size(node));
    assert(folded(nodes).len() == nodes.len());
    assert(nodes[root].id() == root);
    assert(folded(nodes)[root] == folded_node(nodes, root));
    assert(constant_value(nodes, root) == evaluate(node));
    match evaluate(node) {
        Some(value) => {
            assert forall|j: int| 0 <= j < size(node) implies (#[trigger] folded(
                nodes,
            )[j]) is Constant by {
                assert(constant_value(nodes, j) is Some);
                assert(folded(nodes)[j] == folded_node(nodes, j));
            }
        },
        None => {
            assert(!(nodes[root] is Constant));
        },
    }
}

} // verus!
