//! The optimizing compiler: lowers bytecode to IR and runs the optimization
//! passes over it.

use std::collections::HashMap;
use vstd::prelude::*;
use vstd::std_specs::hash::group_hash_axioms;
use vstd::string::StringExecFns;
use crate::binary64;
use crate::bytecode::{BytecodeChunk, Instruction};
use crate::error::CompileError;
use crate::interpreter::Arithmetic;
use crate::ir::{
    ids_are_positions, operands_precede, position_of, IRNode, NodeId, NodeView, Type, IR,
};
use crate::types::{FunctionId, Value};

verus! {

/// The state of lowering: the nodes built so far and the stack of the ids
/// that stand for the values on the interpreter's operand stack.
pub struct Lowering {
    pub nodes: Seq<NodeView>,
    pub stack: Seq<NodeId>,
}

impl Lowering {
    /// The state before the first instruction.
    pub open spec fn start() -> Lowering {
        Lowering { nodes: Seq::empty(), stack: Seq::empty() }
    }

    /// The id that the next node gets.
    pub open spec fn next_id(self) -> NodeId {
        self.nodes.len() as usize
    }

    /// Lowers a binary arithmetic instruction: the right operand is popped
    /// first, then the left; with fewer than two ids the stack is emptied
    /// and no node is built.
    pub open spec fn binary(self, op: Arithmetic) -> Lowering {
        let n = self.stack.len() as int;
        let id = self.next_id();
        if n >= 2 {
            let left = self.stack[n - 2];
            let right = self.stack[n - 1];
            let node = match op {
                Arithmetic::Add => NodeView::Add { left, right, id },
                Arithmetic::Sub => NodeView::Sub { left, right, id },
                Arithmetic::Mul => NodeView::Mul { left, right, id },
                Arithmetic::Div => NodeView::Div { left, right, id },
            };
            Lowering { nodes: self.nodes.push(node), stack: self.stack.subrange(0, n - 2).push(id) }
        } else {
            Lowering { nodes: self.nodes, stack: Seq::empty() }
        }
    }

    /// Lowers one instruction.
    ///
    /// A constant load builds a `Constant` if the constant is a number, and
    /// nothing otherwise. A local load builds a `LoadLocal` and a `TypeGuard`
    /// on it that expects a number, and pushes the guard. A store pops the
    /// value's id, builds the `StoreLocal` of that value, and pushes the id
    /// it popped back, so that the value of an assignment is the value
    /// stored. A call pops as many
    /// arguments as the stack holds, up to its count, then the callee. A
    /// return pops its value and pushes nothing. Where the stack holds too
    /// little, what was popped is lost and no node is built. Jumps and
    /// prints are not lowered.
    pub open spec fn step(self, instruction: Instruction, constants: Seq<Value>) -> Lowering {
        let n = self.stack.len() as int;
        let id = self.next_id();
        match instruction {
            Instruction::LoadConst(index) => {
                if index < constants.len() && constants[index as int] is Number {
                    Lowering {
                        nodes: self.nodes.push(
                            NodeView::Constant { value: constants[index as int]->Number_0, id },
                        ),
                        stack: self.stack.push(id),
                    }
                } else {
                    self
                }
            },
            Instruction::LoadLocal(index) => {
                let guard = (id + 1) as usize;
                Lowering {
                    nodes: self.nodes.push(NodeView::LoadLocal { index, id }).push(
                        NodeView::TypeGuard { value: id, expected_type: Type::Number, id: guard },
                    ),
                    stack: self.stack.push(guard),
                }
            },
            Instruction::StoreLocal(index) => {
                if n > 0 {
                    Lowering {
                        nodes: self.nodes.push(
                            NodeView::StoreLocal { index, value: self.stack.last(), id },
                        ),
                        stack: self.stack,
                    }
                } else {
                    self
                }
            },
            Instruction::Add => self.binary(Arithmetic::Add),
            Instruction::Sub => self.binary(Arithmetic::Sub),
            Instruction::Mul => self.binary(Arithmetic::Mul),
            Instruction::Div => self.binary(Arithmetic::Div),
            Instruction::Call(count) => {
                let taken = if count <= n {
                    count as int
                } else {
                    n
                };
                let args = self.stack.subrange(n - taken, n);
                let rest = self.stack.subrange(0, n - taken);
                if rest.len() > 0 {
                    Lowering {
                        nodes: self.nodes.push(NodeView::Call { callee: rest.last(), args, id }),
                        stack: rest.drop_last().push(id),
                    }
                } else {
                    Lowering { nodes: self.nodes, stack: rest }
                }
            },
            Instruction::Return => {
                if n > 0 {
                    Lowering {
                        nodes: self.nodes.push(NodeView::Return { value: self.stack.last(), id }),
                        stack: self.stack.drop_last(),
                    }
                } else {
                    self
                }
            },
            Instruction::Print => self,
            Instruction::Jump(_) => self,
            Instruction::JumpIfFalse(_) => self,
        }
    }

    /// Whether every id on the stack names a node, each node's id is its
    /// position, and every operand was allocated before its node.
    pub open spec fn wf(self) -> bool {
        &&& ids_are_positions(self.nodes)
        &&& operands_precede(self.nodes)
        &&& forall|k: int| 0 <= k < self.stack.len() ==> #[trigger] self.stack[k] < self.nodes.len()
    }
}

/// The state after lowering `instructions` in order.
pub open spec fn lower_all(instructions: Seq<Instruction>, constants: Seq<Value>) -> Lowering
    decreases instructions.len(),
{
    if instructions.len() == 0 {
        Lowering::start()
    } else {
        lower_all(instructions.drop_last(), constants).step(instructions.last(), constants)
    }
}

/// The feature for which an instruction is refused by the compiler, if it is.
pub open spec fn unsupported_feature(instruction: Instruction) -> Option<Seq<char>> {
    match instruction {
        Instruction::Jump(_) => Some("jump"@),
        Instruction::JumpIfFalse(_) => Some("jump"@),
        Instruction::Print => Some("print"@),
        _ => None,
    }
}

/// The feature of the first instruction in `instructions` that the compiler
/// refuses.
pub open spec fn first_unsupported(instructions: Seq<Instruction>) -> Option<Seq<char>>
    decreases instructions.len(),
{
    if instructions.len() == 0 {
        None
    } else {
        match first_unsupported(instructions.drop_last()) {
            Some(feature) => Some(feature),
            None => unsupported_feature(instructions.last()),
        }
    }
}

/// An instruction that is refused in a prefix is refused in the whole.
pub proof fn lemma_first_unsupported_prefix(instructions: Seq<Instruction>, k: int)
    requires
        0 <= k <= instructions.len(),
        first_unsupported(instructions.subrange(0, k)) is Some,
    ensures
        first_unsupported(instructions) == first_unsupported(instructions.subrange(0, k)),
    decreases instructions.len(),
{
    if k == instructions.len() {
        assert(instructions.subrange(0, k) =~= instructions);
    } else {
        assert(instructions.drop_last().subrange(0, k) =~= instructions.subrange(0, k));
        lemma_first_unsupported_prefix(instructions.drop_last(), k);
    }
}

/// One instruction keeps a lowering well formed, as long as the ids fit.
pub proof fn lemma_step_wf(state: Lowering, instruction: Instruction, constants: Seq<Value>)
    requires
        state.wf(),
        state.step(instruction, constants).nodes.len() <= usize::MAX,
    ensures
        state.step(instruction, constants).wf(),
{
    let next = state.step(instruction, constants);
    let n = state.stack.len() as int;
    assert forall|i: int| 0 <= i < next.nodes.len() implies (#[trigger] next.nodes[i]).id() == i
        && next.nodes[i].operands_precede() by {
        if i < state.nodes.len() {
            assert(next.nodes[i] == state.nodes[i]);
        } else {
            let node = next.nodes[i];
            assert forall|k: int| 0 <= k < node.operands().len() implies #[trigger] node.operands()[k]
                < node.id() by {
                match instruction {
                    Instruction::Call(count) => {
                        let taken = if count <= n {
                            count as int
                        } else {
                            n
                        };
                        if k > 0 {
                            assert(node.operands()[k] == state.stack[n - taken + k - 1]);
                        } else {
                            assert(node.operands()[k] == state.stack[n - taken - 1]);
                        }
                    },
                    Instruction::StoreLocal(_) => {
                        assert(node.operands()[k] == state.stack[n - 1]);
                    },
                    Instruction::Return => {
                        assert(node.operands()[k] == state.stack[n - 1]);
                    },
                    Instruction::Add | Instruction::Sub | Instruction::Mul | Instruction::Div => {
                        if k == 0 {
                            assert(node.operands()[k] == state.stack[n - 2]);
                        } else {
                            assert(node.operands()[k] == state.stack[n - 1]);
                        }
                    },
                    _ => {},
                }
            }
        }
    }
    assert forall|k: int| 0 <= k < next.stack.len() implies #[trigger] next.stack[k]
        < next.nodes.len() by {
        if k < n && next.stack[k] == state.stack[k] {
            assert(state.stack[k] < state.nodes.len());
        }
    }
}


/// The operation and operands of an arithmetic node.
pub open spec fn arithmetic_of(node: NodeView) -> Option<(Arithmetic, NodeId, NodeId)> {
    match node {
        NodeView::Add { left, right, .. } => Some((Arithmetic::Add, left, right)),
        NodeView::Sub { left, right, .. } => Some((Arithmetic::Sub, left, right)),
        NodeView::Mul { left, right, .. } => Some((Arithmetic::Mul, left, right)),
        NodeView::Div { left, right, .. } => Some((Arithmetic::Div, left, right)),
        _ => None,
    }
}

/// The value that the node at position `i` is known to have before the
/// program runs: that of a constant, or of an arithmetic node whose
/// operands, both allocated before it, have such values. A division by a
/// zero constant has none: it is left to fail at run time.
pub open spec fn constant_value(nodes: Seq<NodeView>, i: int) -> Option<u64>
    decreases i,
{
    if !(0 <= i < nodes.len()) {
        None
    } else {
        match nodes[i] {
            NodeView::Constant { value, .. } => Some(value),
            _ => match arithmetic_of(nodes[i]) {
                Some((op, left, right)) => {
                    if left < i && right < i {
                        match (
                            constant_value(nodes, left as int),
                            constant_value(nodes, right as int),
                        ) {
                            (Some(l), Some(r)) => {
                                if op == Arithmetic::Div && binary64::is_zero(r) {
                                    None
                                } else {
                                    Some(op.apply_spec(l, r))
                                }
                            },
                            _ => None,
                        }
                    } else {
                        None
                    }
                },
                None => None,
            },
        }
    }
}

/// The node at position `i` after constant folding: a constant of the same
/// id if the node has a constant value, the node itself if not.
pub open spec fn folded_node(nodes: Seq<NodeView>, i: int) -> NodeView {
    match constant_value(nodes, i) {
        Some(value) => NodeView::Constant { value, id: nodes[i].id() },
        None => nodes[i],
    }
}

/// The nodes after constant folding.
pub open spec fn folded(nodes: Seq<NodeView>) -> Seq<NodeView> {
    Seq::new(nodes.len(), |i: int| folded_node(nodes, i))
}

/// Folding keeps the constant value of every node.
pub proof fn lemma_folded_keeps_values(nodes: Seq<NodeView>, i: int)
    ensures
        constant_value(folded(nodes), i) == constant_value(nodes, i),
    decreases i,
{
    if 0 <= i < nodes.len() {
        match arithmetic_of(nodes[i]) {
            Some((op, left, right)) => {
                if left < i && right < i {
                    lemma_folded_keeps_values(nodes, left as int);
                    lemma_folded_keeps_values(nodes, right as int);
                }
            },
            None => {},
        }
    }
}

/// Folding a second time changes nothing.
pub proof fn lemma_folded_idempotent(nodes: Seq<NodeView>)
    ensures
        folded(folded(nodes)) == folded(nodes),
{
    assert forall|i: int| 0 <= i < nodes.len() implies folded_node(folded(nodes), i)
        == folded_node(nodes, i) by {
        lemma_folded_keeps_values(nodes, i);
    }
    assert(folded(folded(nodes)) =~= folded(nodes));
}

/// Folding keeps ids at their positions and operands before their nodes.
pub proof fn lemma_folded_wf(nodes: Seq<NodeView>)
    requires
        ids_are_positions(nodes),
        operands_precede(nodes),
    ensures
        ids_are_positions(folded(nodes)),
        operands_precede(folded(nodes)),
{
    assert forall|i: int| 0 <= i < nodes.len() implies (#[trigger] folded(nodes)[i]).id() == i
        && folded(nodes)[i].operands_precede() by {
        assert(nodes[i].id() == i);
        assert(nodes[i].operands_precede());
    }
}

/// The value of a constant node.
pub open spec fn node_constant(node: NodeView) -> Option<u64> {
    match node {
        NodeView::Constant { value, .. } => Some(value),
        _ => None,
    }
}

/// The constant that the arithmetic node at position `i` folds to, if both
/// its operands are constant nodes now; a division by zero does not fold.
pub open spec fn foldable(nodes: Seq<NodeView>, i: int) -> Option<u64> {
    match arithmetic_of(nodes[i]) {
        Some((op, left, right)) => match (
            node_constant(nodes[left as int]),
            node_constant(nodes[right as int]),
        ) {
            (Some(l), Some(r)) => {
                if op == Arithmetic::Div && binary64::is_zero(r) {
                    None
                } else {
                    Some(op.apply_spec(l, r))
                }
            },
            _ => None,
        },
        None => None,
    }
}

/// How far a sweep over `start` has come at position `i`: the nodes before
/// `i` are folded, the others are as they were.
pub open spec fn sweep_reached(start: Seq<NodeView>, current: Seq<NodeView>, i: int) -> bool {
    &&& current.len() == start.len()
    &&& forall|j: int| 0 <= j < i ==> #[trigger] current[j] == folded_node(start, j)
    &&& forall|j: int| i <= j < start.len() ==> #[trigger] current[j] == start[j]
}

/// A folded node is a constant exactly if the node has a constant value.
pub proof fn lemma_folded_node_constant(nodes: Seq<NodeView>, j: int)
    requires
        0 <= j < nodes.len(),
    ensures
        node_constant(folded_node(nodes, j)) == constant_value(nodes, j),
{
}

/// One step of a sweep: the node at `i` folds exactly if it is an
/// arithmetic node with a constant value, and to that value; with it folded
/// the sweep has reached `i + 1`.
pub proof fn lemma_sweep_step(start: Seq<NodeView>, current: Seq<NodeView>, i: int)
    requires
        0 <= i < start.len(),
        ids_are_positions(start),
        operands_precede(start),
        sweep_reached(start, current, i),
    ensures
        current[i].operands_precede(),
        current[i].id() == i,
        foldable(current, i) matches Some(value) ==> folded_node(start, i)
            == (NodeView::Constant { value, id: i as usize }) && folded_node(start, i) != start[i],
        foldable(current, i) is None ==> folded_node(start, i) == start[i],
        sweep_reached(start, current.update(i, folded_node(start, i)), i + 1),
{
    let node = start[i];
    assert(current[i] == node);
    assert(node.id() == i);
    assert(node.operands_precede());
    match arithmetic_of(node) {
        Some((op, left, right)) => {
            assert(node.operands()[0] == left);
            assert(node.operands()[1] == right);
            lemma_folded_node_constant(start, left as int);
            lemma_folded_node_constant(start, right as int);
            assert(current[left as int] == folded_node(start, left as int));
            assert(current[right as int] == folded_node(start, right as int));
        },
        None => {},
    }
    let next = current.update(i, folded_node(start, i));
    assert forall|j: int| 0 <= j < i + 1 implies #[trigger] next[j] == folded_node(start, j) by {
        if j < i {
            assert(current[j] == folded_node(start, j));
        }
    }
    assert forall|j: int| i + 1 <= j < start.len() implies #[trigger] next[j] == start[j] by {
        assert(current[j] == start[j]);
    }
}

/// Whether `node` is a guard that expects a number.
pub open spec fn is_number_guard(node: NodeView) -> bool {
    node matches NodeView::TypeGuard { expected_type, .. } && expected_type == Type::Number
}

/// Whether the first node with the id `id` is a guard that expects a
/// number.
pub open spec fn names_number_guard(nodes: Seq<NodeView>, id: NodeId) -> bool {
    match position_of(nodes, id) {
        Some(i) => is_number_guard(nodes[i]),
        None => false,
    }
}

/// How far the id `id` lies below the end of the ids of `nodes`; zero for
/// an id that is none of them.
pub open spec fn ids_above(nodes: Seq<NodeView>, id: NodeId) -> nat {
    if id < nodes.len() {
        (nodes.len() - id) as nat
    } else {
        0
    }
}

/// Whether the value of `id` is known to be a number, directly or through
/// a chain of guards: the first node with that id is a number guard, or
/// some guard on `id` expects a number or is itself known to be a number.
///
/// A guard is followed to its own guards only if its id lies above `id`
/// and names a position, as the id of every guard does in an IR whose
/// operands precede their nodes.
pub open spec fn number_guarded(nodes: Seq<NodeView>, id: NodeId) -> bool
    decreases ids_above(nodes, id),
{
    ||| names_number_guard(nodes, id)
    ||| exists|j: int|
        0 <= j < nodes.len() && (#[trigger] nodes[j] matches NodeView::TypeGuard {
            value,
            expected_type,
            id: guard,
        } && value == id && (expected_type == Type::Number || (id < guard && guard < nodes.len()
            && number_guarded(nodes, guard))))
}

/// Whether the node at position `j` is a guard on the value of `id` that
/// shows it to be a number: the guard expects a number, or the guard's own
/// value is known to be a number.
pub open spec fn guard_shows_number(nodes: Seq<NodeView>, j: int, id: NodeId) -> bool {
    nodes[j] matches NodeView::TypeGuard { value, expected_type, id: guard } && value == id && (
    expected_type == Type::Number || (id < guard && guard < nodes.len() && number_guarded(
        nodes,
        guard,
    )))
}

/// A value is known to be a number exactly if its node is a number guard
/// or some node is a guard that shows it.
pub proof fn lemma_number_guarded(nodes: Seq<NodeView>, id: NodeId)
    ensures
        number_guarded(nodes, id) == (names_number_guard(nodes, id) || exists|j: int|
            0 <= j < nodes.len() && #[trigger] guard_shows_number(nodes, j, id)),
{
    if number_guarded(nodes, id) && !names_number_guard(nodes, id) {
        let j = choose|j: int|
            0 <= j < nodes.len() && (#[trigger] nodes[j] matches NodeView::TypeGuard {
                value,
                expected_type,
                id: guard,
            } && value == id && (expected_type == Type::Number || (id < guard && guard
                < nodes.len() && number_guarded(nodes, guard))));
        assert(guard_shows_number(nodes, j, id));
    }
    if exists|j: int| 0 <= j < nodes.len() && #[trigger] guard_shows_number(nodes, j, id) {
        let j = choose|j: int| 0 <= j < nodes.len() && #[trigger] guard_shows_number(nodes, j, id);
        assert(nodes[j] is TypeGuard);
        assert(number_guarded(nodes, id));
    }
}

/// In an IR whose ids are positions and whose operands precede their
/// nodes, every guard is followed: a guard on `id` shows it to be a number
/// exactly if the guard expects a number or is itself known to be one.
pub proof fn law_guards_are_followed(nodes: Seq<NodeView>, j: int, id: NodeId)
    requires
        ids_are_positions(nodes),
        operands_precede(nodes),
        0 <= j < nodes.len(),
        nodes[j] matches NodeView::TypeGuard { value, .. } && value == id,
    ensures
        guard_shows_number(nodes, j, id) == (is_number_guard(nodes[j]) || number_guarded(
            nodes,
            nodes[j].id(),
        )),
{
    let node = nodes[j];
    assert(node.id() == j);
    assert(node.operands_precede());
    assert(node.operands()[0] == id);
    if is_number_guard(node) {
    } else {
        assert(id < node.id() && node.id() < nodes.len());
    }
}

/// What type specialization finds for one arithmetic node: its position and
/// whether each operand is known to be a number.
#[derive(Debug, Clone, Copy, PartialEq, Eq, Structural)]
pub struct Specialization {
    pub position: usize,
    pub left_is_number: bool,
    pub right_is_number: bool,
}

/// What type specialization finds among the first `k` nodes: one entry for
/// each arithmetic node, in order.
pub open spec fn specializations(nodes: Seq<NodeView>, k: int) -> Seq<Specialization>
    decreases k,
{
    if k <= 0 {
        Seq::empty()
    } else {
        let before = specializations(nodes, k - 1);
        match arithmetic_of(nodes[k - 1]) {
            Some((_, left, right)) => before.push(
                Specialization {
                    position: (k - 1) as usize,
                    left_is_number: number_guarded(nodes, left),
                    right_is_number: number_guarded(nodes, right),
                },
            ),
            None => before,
        }
    }
}

/// The positions, among the first `k` nodes, of the calls with at most two
/// arguments.
pub open spec fn inline_candidates(nodes: Seq<NodeView>, k: int) -> Seq<usize>
    decreases k,
{
    if k <= 0 {
        Seq::empty()
    } else {
        let before = inline_candidates(nodes, k - 1);
        match nodes[k - 1] {
            NodeView::Call { args, .. } => if args.len() <= 2 {
                before.push((k - 1) as usize)
            } else {
                before
            },
            _ => before,
        }
    }
}

/// The state of the scan for redundant loads: for each local slot the id of
/// its latest producer, and the loads found redundant so far, each with its
/// position and the id that could replace it.
pub struct LoadScan {
    pub producers: Map<usize, NodeId>,
    pub redundant: Seq<(usize, NodeId)>,
}

/// The scan for redundant loads over the first `k` nodes.
///
/// A load of a slot that has a producer is redundant, and the producer
/// stays; a load of a slot without one becomes its producer. A store makes
/// the stored value the slot's producer.
pub open spec fn scan_loads(nodes: Seq<NodeView>, k: int) -> LoadScan
    decreases k,
{
    if k <= 0 {
        LoadScan { producers: Map::empty(), redundant: Seq::empty() }
    } else {
        let before = scan_loads(nodes, k - 1);
        match nodes[k - 1] {
            NodeView::LoadLocal { index, id } => {
                if before.producers.contains_key(index) {
                    LoadScan {
                        producers: before.producers,
                        redundant: before.redundant.push(
                            ((k - 1) as usize, before.producers[index]),
                        ),
                    }
                } else {
                    LoadScan {
                        producers: before.producers.insert(index, id),
                        redundant: before.redundant,
                    }
                }
            },
            NodeView::StoreLocal { index, value, .. } => LoadScan {
                producers: before.producers.insert(index, value),
                redundant: before.redundant,
            },
            _ => before,
        }
    }
}

/// The model of an optimization report.
pub struct ReportView {
    pub redundant_loads: Seq<(usize, NodeId)>,
    pub inline_candidates: Seq<usize>,
    pub specializations: Seq<Specialization>,
}

/// What the analysis passes found in an IR.
#[derive(Debug, Clone)]
pub struct OptimizationReport {
    /// The redundant loads: position and the id that could replace the load.
    pub redundant_loads: Vec<(usize, NodeId)>,
    /// The positions of the calls that could be inlined.
    pub inline_candidates: Vec<usize>,
    /// For each arithmetic node, whether its operands are known numbers.
    pub specializations: Vec<Specialization>,
}

impl View for OptimizationReport {
    type V = ReportView;

    open spec fn view(&self) -> ReportView {
        ReportView {
            redundant_loads: self.redundant_loads@,
            inline_candidates: self.inline_candidates@,
            specializations: self.specializations@,
        }
    }
}

/// What the analysis passes find in `nodes`.
pub open spec fn analysis(nodes: Seq<NodeView>) -> ReportView {
    ReportView {
        redundant_loads: scan_loads(nodes, nodes.len() as int).redundant,
        inline_candidates: inline_candidates(nodes, nodes.len() as int),
        specializations: specializations(nodes, nodes.len() as int),
    }
}

/// The operation and operands of an arithmetic node.
fn arithmetic_parts(node: &IRNode) -> (parts: Option<(Arithmetic, NodeId, NodeId)>)
    ensures
        parts == arithmetic_of(node@),
{
    match node {
        IRNode::Add { left, right, .. } => Some((Arithmetic::Add, *left, *right)),
        IRNode::Sub { left, right, .. } => Some((Arithmetic::Sub, *left, *right)),
        IRNode::Mul { left, right, .. } => Some((Arithmetic::Mul, *left, *right)),
        IRNode::Div { left, right, .. } => Some((Arithmetic::Div, *left, *right)),
        _ => None,
    }
}

/// The value of a constant node.
fn constant_of(node: &IRNode) -> (value: Option<u64>)
    ensures
        match node@ {
            NodeView::Constant { value: v, .. } => value == Some(v),
            _ => value.is_none(),
        },
{
    match node {
        IRNode::Constant { value, .. } => Some(*value),
        _ => None,
    }
}

/// The optimizing compiler.
pub struct TurboFan {
    value_stack: Vec<NodeId>,
}

impl TurboFan {
    /// The ids left on the value stack by the last lowering.
    pub closed spec fn stack(&self) -> Seq<NodeId> {
        self.value_stack@
    }

    /// A compiler with an empty value stack.
    pub fn new() -> (compiler: TurboFan)
        ensures
            compiler.stack() == Seq::<NodeId>::empty(),
    {
        TurboFan { value_stack: Vec::new() }
    }

    /// The number of ids left on the value stack by the last lowering.
    pub fn stack_depth(&self) -> (depth: usize)
        ensures
            depth == self.stack().len(),
    {
        self.value_stack.len()
    }

    /// Lowers a binary arithmetic instruction.
    fn lower_binary(&mut self, ir: &mut IR, op: Arithmetic)
        requires
            old(ir)@.wf(),
        ensures
            final(ir)@.wf(),
            (Lowering { nodes: final(ir)@.nodes, stack: final(self).stack() }) == (Lowering {
                nodes: old(ir)@.nodes,
                stack: old(self).stack(),
            }).binary(op),
    {
        let n = self.value_stack.len();
        if n >= 2 {
            let right = self.value_stack[n - 1];
            let left = self.value_stack[n - 2];
            self.value_stack.truncate(n - 2);
            let id = match op {
                Arithmetic::Add => ir.add_add(left, right),
                Arithmetic::Sub => ir.add_sub(left, right),
                Arithmetic::Mul => ir.add_mul(left, right),
                Arithmetic::Div => ir.add_div(left, right),
            };
            self.value_stack.push(id);
        } else {
            self.value_stack.clear();
        }
    }

    /// Lowers bytecode to IR in one pass over its instructions.
    ///
    /// Bytecode that jumps or prints is refused with `UnsupportedFeature`,
    /// which names the first such instruction's feature. Otherwise the IR
    /// holds the nodes that `lower_all` describes: each node's id is its
    /// position, and every operand was allocated before the node that reads
    /// it.
    pub fn lower_to_ir(&mut self, bytecode: &BytecodeChunk) -> (result: Result<IR, CompileError>)
        ensures
            match first_unsupported(bytecode@.instructions) {
                Some(feature) => result matches Err(CompileError::UnsupportedFeature { feature: f })
                    && f@ == feature,
                None => {
                    &&& result matches Ok(ir)
                    &&& ir@.wf()
                    &&& operands_precede(ir@.nodes)
                    &&& ir@.nodes == lower_all(bytecode@.instructions, bytecode@.constants).nodes
                    &&& final(self).stack() == lower_all(
                        bytecode@.instructions,
                        bytecode@.constants,
                    ).stack
                },
            },
    {
        let mut ir = IR::new();
        self.value_stack.clear();
        let ghost instructions = bytecode@.instructions;
        let ghost constants = bytecode@.constants;
        let mut i: usize = 0;
        while i < bytecode.instructions.len()
            invariant
                i <= bytecode.instructions.len(),
                instructions == bytecode@.instructions,
                constants == bytecode@.constants,
                ir@.wf(),
                first_unsupported(instructions.subrange(0, i as int)) is None,
                lower_all(instructions.subrange(0, i as int), constants) == (Lowering {
                    nodes: ir@.nodes,
                    stack: self.stack(),
                }),
                lower_all(instructions.subrange(0, i as int), constants).wf(),
            decreases bytecode.instructions.len() - i,
        {
            let instruction = bytecode.instructions[i];
            let ghost before = lower_all(instructions.subrange(0, i as int), constants);
            proof {
                assert(instructions.subrange(0, i + 1).drop_last() =~= instructions.subrange(
                    0,
                    i as int,
                ));
                assert(instructions.subrange(0, i + 1).last() == instruction);
            }
            match instruction {
                Instruction::LoadConst(index) => {
                    if index < bytecode.constants.len() {
                        match bytecode.constants[index] {
                            Value::Number(value) => {
                                let id = ir.add_constant(value);
                                self.value_stack.push(id);
                            },
                            _ => {},
                        }
                    }
                },
                Instruction::LoadLocal(index) => {
                    let id = ir.add_load_local(index);
                    let guard = ir.add_type_guard(id, Type::Number);
                    self.value_stack.push(guard);
                },
                Instruction::StoreLocal(index) => {
                    match self.value_stack.pop() {
                        Some(value) => {
                            ir.add_store_local(index, value);
                            self.value_stack.push(value);
                        },
                        None => {},
                    }
                },
                Instruction::Add => self.lower_binary(&mut ir, Arithmetic::Add),
                Instruction::Sub => self.lower_binary(&mut ir, Arithmetic::Sub),
                Instruction::Mul => self.lower_binary(&mut ir, Arithmetic::Mul),
                Instruction::Div => self.lower_binary(&mut ir, Arithmetic::Div),
                Instruction::Call(count) => {
                    let n = self.value_stack.len();
                    let taken = if count <= n {
                        count
                    } else {
                        n
                    };
                    let mut args: Vec<NodeId> = Vec::new();
                    let mut k: usize = n - taken;
                    while k < n
                        invariant
                            taken <= n,
                            n - taken <= k <= n,
                            n == self.value_stack@.len(),
                            args@ == self.value_stack@.subrange(n - taken, k as int),
                        decreases n - k,
                    {
                        args.push(self.value_stack[k]);
                        assert(args@ =~= self.value_stack@.subrange(n - taken, k + 1));
                        k += 1;
                    }
                    self.value_stack.truncate(n - taken);
                    match self.value_stack.pop() {
                        Some(callee) => {
                            let id = ir.add_call(callee, args);
                            self.value_stack.push(id);
                        },
                        None => {},
                    }
                },
                Instruction::Return => {
                    match self.value_stack.pop() {
                        Some(value) => {
                            ir.add_return(value);
                        },
                        None => {},
                    }
                },
                Instruction::Print => {
                    proof {
                        lemma_first_unsupported_prefix(instructions, i + 1);
                    }
                    return Err(
                        CompileError::UnsupportedFeature { feature: String::from_str("print") },
                    );
                },
                Instruction::Jump(_) => {
                    proof {
                        lemma_first_unsupported_prefix(instructions, i + 1);
                    }
                    return Err(
                        CompileError::UnsupportedFeature { feature: String::from_str("jump") },
                    );
                },
                Instruction::JumpIfFalse(_) => {
                    proof {
                        lemma_first_unsupported_prefix(instructions, i + 1);
                    }
                    return Err(
                        CompileError::UnsupportedFeature { feature: String::from_str("jump") },
                    );
                },
            }
            let fits = ir.len();
            proof {
                let after = before.step(instruction, constants);
                assert(after.nodes =~= ir@.nodes);
                assert(after.stack =~= self.stack());
                lemma_step_wf(before, instruction, constants);
            }
            i += 1;
        }
        proof {
            assert(instructions.subrange(0, i as int) =~= instructions);
        }
        Ok(ir)
    }

    /// The constant that the arithmetic node at position `i` folds to, if
    /// its operands are constants now.
    fn fold_candidate(ir: &IR, i: usize) -> (value: Option<u64>)
        requires
            i < ir@.nodes.len(),
            ir@.nodes[i as int].operands_precede(),
            ir@.nodes[i as int].id() == i,
        ensures
            value == foldable(ir@.nodes, i as int),
    {
        match arithmetic_parts(ir.node(i)) {
            Some((op, left, right)) => {
                proof {
                    let node = ir@.nodes[i as int];
                    assert(node.operands()[0] == left);
                    assert(node.operands()[1] == right);
                }
                let l = constant_of(ir.node(left));
                let r = constant_of(ir.node(right));
                match (l, r) {
                    (Some(l), Some(r)) => {
                        if op == Arithmetic::Div && binary64::bits_are_zero(r) {
                            None
                        } else {
                            Some(op.apply(l, r))
                        }
                    },
                    _ => None,
                }
            },
            None => None,
        }
    }

    /// One sweep of constant folding over all nodes, in order; returns
    /// whether a node changed.
    fn fold_sweep(ir: &mut IR) -> (changed: bool)
        requires
            old(ir)@.wf(),
            operands_precede(old(ir)@.nodes),
        ensures
            final(ir)@.nodes == folded(old(ir)@.nodes),
            final(ir)@.next_id == old(ir)@.next_id,
            changed == (final(ir)@.nodes != old(ir)@.nodes),
    {
        let ghost start = ir@.nodes;
        let n = ir.len();
        let mut changed = false;
        let mut i: usize = 0;
        while i < n
            invariant
                i <= n,
                n == start.len(),
                ir@.nodes.len() == n,
                ir@.next_id == old(ir)@.next_id,
                start == old(ir)@.nodes,
                ids_are_positions(start),
                operands_precede(start),
                sweep_reached(start, ir@.nodes, i as int),
                changed == (ir@.nodes != start),
            decreases n - i,
        {
            let ghost current = ir@.nodes;
            proof {
                lemma_sweep_step(start, current, i as int);
            }
            match Self::fold_candidate(ir, i) {
                Some(value) => {
                    ir.set_node(i, IRNode::Constant { value, id: i });
                    changed = true;
                    proof {
                        assert(ir@.nodes[i as int] != start[i as int]);
                    }
                },
                None => {},
            }
            proof {
                assert(ir@.nodes == current.update(i as int, folded_node(start, i as int)));
                if !changed {
                    assert(ir@.nodes =~= start);
                }
            }
            i += 1;
        }
        proof {
            assert(ir@.nodes =~= folded(start));
        }
        changed
    }

    /// Constant folding: sweeps over the nodes until none changes, and
    /// rewrites each arithmetic node whose operands are constants to a
    /// constant of the same id. A division by a zero constant is not folded.
    ///
    /// However often the sweeps revisit a node, the result is the one that
    /// `folded` describes.
    pub fn constant_folding(&self, ir: &mut IR)
        requires
            old(ir)@.wf(),
            operands_precede(old(ir)@.nodes),
        ensures
            final(ir)@.nodes == folded(old(ir)@.nodes),
            final(ir)@.next_id == old(ir)@.next_id,
            final(ir)@.wf(),
            operands_precede(final(ir)@.nodes),
    {
        let ghost initial = ir@.nodes;
        let mut changed = true;
        proof {
            lemma_folded_wf(initial);
            lemma_folded_idempotent(initial);
        }
        while changed
            invariant
                ir@.next_id == old(ir)@.next_id,
                ir@.next_id == initial.len(),
                initial == old(ir)@.nodes,
                ids_are_positions(initial),
                operands_precede(initial),
                ir@.nodes == initial || ir@.nodes == folded(initial),
                !changed ==> ir@.nodes == folded(initial),
                folded(folded(initial)) == folded(initial),
                ids_are_positions(folded(initial)),
                operands_precede(folded(initial)),
                ir@.nodes.len() == initial.len(),
            decreases
                    (if changed {
                        1int
                    } else {
                        0int
                    }) + (if ir@.nodes == folded(initial) {
                        0int
                    } else {
                        1int
                    }),
        {
            changed = Self::fold_sweep(ir);
        }
    }

    /// Whether the value of `id` is known to be a number, given for each id
    /// above it whether that one is.
    fn guarded_below(ir: &IR, known: &Vec<bool>, id: NodeId) -> (guarded: bool)
        requires
            known@.len() == ir@.nodes.len(),
            forall|g: usize|
                id < g < ir@.nodes.len() ==> #[trigger] known@[g as int] == number_guarded(
                    ir@.nodes,
                    g,
                ),
        ensures
            guarded == number_guarded(ir@.nodes, id),
    {
        proof {
            lemma_number_guarded(ir@.nodes, id);
        }
        match ir.get_node(id) {
            Some(node) => {
                match node {
                    IRNode::TypeGuard { expected_type: Type::Number, .. } => {
                        return true;
                    },
                    _ => {},
                }
            },
            None => {},
        }
        let n = ir.len();
        let mut j: usize = 0;
        while j < n
            invariant
                j <= n,
                n == ir@.nodes.len(),
                known@.len() == n,
                forall|g: usize|
                    id < g < n ==> #[trigger] known@[g as int] == number_guarded(ir@.nodes, g),
                forall|k: int| 0 <= k < j ==> !guard_shows_number(ir@.nodes, k, id),
                !names_number_guard(ir@.nodes, id),
                number_guarded(ir@.nodes, id) == (names_number_guard(ir@.nodes, id) || exists|
                    j: int,
                | 0 <= j < ir@.nodes.len() && #[trigger] guard_shows_number(ir@.nodes, j, id)),
            decreases n - j,
        {
            match ir.node(j) {
                IRNode::TypeGuard { value, expected_type, id: guard } => {
                    if *value == id {
                        let shown = match expected_type {
                            Type::Number => true,
                            Type::Unknown => id < *guard && *guard < n && known[*guard],
                        };
                        if shown {
                            assert(guard_shows_number(ir@.nodes, j as int, id));
                            return true;
                        }
                    }
                },
                _ => {},
            }
            j += 1;
        }
        false
    }

    /// For each id that is a position of `ir`, whether its value is known
    /// to be a number.
    fn guard_table(ir: &IR) -> (known: Vec<bool>)
        ensures
            known@.len() == ir@.nodes.len(),
            forall|g: usize|
                g < ir@.nodes.len() ==> #[trigger] known@[g as int] == number_guarded(ir@.nodes, g),
    {
        let n = ir.len();
        let mut known: Vec<bool> = Vec::new();
        let mut k: usize = 0;
        while k < n
            invariant
                k <= n,
                known@.len() == k,
            decreases n - k,
        {
            known.push(false);
            k += 1;
        }
        let mut id: usize = n;
        while id > 0
            invariant
                id <= n,
                n == ir@.nodes.len(),
                known@.len() == n,
                forall|g: usize|
                    id <= g < n ==> #[trigger] known@[g as int] == number_guarded(ir@.nodes, g),
            decreases id,
        {
            id -= 1;
            let guarded = Self::guarded_below(ir, &known, id);
            known.set(id, guarded);
        }
        known
    }

    /// Whether the value of `value_id` is known to be a number, directly or
    /// through a chain of guards: its node is a number guard, or some guard
    /// on it expects a number or is itself known to be a number.
    pub fn has_number_guard(&self, ir: &IR, value_id: NodeId) -> (guarded: bool)
        ensures
            guarded == number_guarded(ir@.nodes, value_id),
    {
        let known = Self::guard_table(ir);
        Self::guarded_below(ir, &known, value_id)
    }

    /// Type specialization: for each arithmetic node, in order, whether
    /// each operand is known to be a number, directly or through a chain of
    /// guards. The IR is not changed.
    pub fn type_specialization(&self, ir: &IR) -> (found: Vec<Specialization>)
        ensures
            found@ == specializations(ir@.nodes, ir@.nodes.len() as int),
    {
        let known = Self::guard_table(ir);
        let mut found: Vec<Specialization> = Vec::new();
        let n = ir.len();
        let mut i: usize = 0;
        while i < n
            invariant
                i <= n,
                n == ir@.nodes.len(),
                known@.len() == n,
                forall|g: usize|
                    g < n ==> #[trigger] known@[g as int] == number_guarded(ir@.nodes, g),
                found@ == specializations(ir@.nodes, i as int),
            decreases n - i,
        {
            match arithmetic_parts(ir.node(i)) {
                Some((_, left, right)) => {
                    let left_is_number = Self::guarded_below(ir, &known, left);
                    let right_is_number = Self::guarded_below(ir, &known, right);
                    found.push(Specialization { position: i, left_is_number, right_is_number });
                },
                None => {},
            }
            i += 1;
        }
        found
    }

    /// Inline-candidate tagging: the positions of the calls with at most two
    /// arguments, in order. The IR is not changed.
    pub fn inline_small_functions(&self, ir: &IR) -> (found: Vec<usize>)
        ensures
            found@ == inline_candidates(ir@.nodes, ir@.nodes.len() as int),
    {
        let mut found: Vec<usize> = Vec::new();
        let n = ir.len();
        let mut i: usize = 0;
        while i < n
            invariant
                i <= n,
                n == ir@.nodes.len(),
                found@ == inline_candidates(ir@.nodes, i as int),
            decreases n - i,
        {
            match ir.node(i) {
                IRNode::Call { args, .. } => {
                    if args.len() <= 2 {
                        found.push(i);
                    }
                },
                _ => {},
            }
            i += 1;
        }
        found
    }

    /// Redundant-load detection: one forward pass that records each load of
    /// a local slot that already has a producer, with its position and the
    /// producer's id. The IR is not changed: no load is removed and no
    /// reference is rewritten.
    pub fn eliminate_redundant_loads(&self, ir: &IR) -> (found: Vec<(usize, NodeId)>)
        ensures
            found@ == scan_loads(ir@.nodes, ir@.nodes.len() as int).redundant,
    {
        broadcast use group_hash_axioms;

        let mut producers: HashMap<usize, NodeId> = HashMap::new();
        let mut found: Vec<(usize, NodeId)> = Vec::new();
        let n = ir.len();
        let mut i: usize = 0;
        while i < n
            invariant
                i <= n,
                n == ir@.nodes.len(),
                producers@ == scan_loads(ir@.nodes, i as int).producers,
                found@ == scan_loads(ir@.nodes, i as int).redundant,
            decreases n - i,
        {
            match ir.node(i) {
                IRNode::LoadLocal { index, id } => {
                    match producers.get(index) {
                        Some(previous) => {
                            found.push((i, *previous));
                        },
                        None => {
                            producers.insert(*index, *id);
                        },
                    }
                },
                IRNode::StoreLocal { index, value, .. } => {
                    producers.insert(*index, *value);
                },
                _ => {},
            }
            i += 1;
        }
        found
    }

    /// Runs the passes in their fixed order: constant folding, then
    /// redundant-load detection, inline-candidate tagging and type
    /// specialization on the folded IR.
    pub fn optimize(&self, ir: &mut IR) -> (report: OptimizationReport)
        requires
            old(ir)@.wf(),
            operands_precede(old(ir)@.nodes),
        ensures
            final(ir)@.nodes == folded(old(ir)@.nodes),
            final(ir)@.next_id == old(ir)@.next_id,
            final(ir)@.wf(),
            operands_precede(final(ir)@.nodes),
            report@ == analysis(folded(old(ir)@.nodes)),
    {
        self.constant_folding(ir);
        let redundant_loads = self.eliminate_redundant_loads(ir);
        let inline_candidates = self.inline_small_functions(ir);
        let specializations = self.type_specialization(ir);
        OptimizationReport { redundant_loads, inline_candidates, specializations }
    }

    /// Compiles bytecode to optimized IR: lowers it, then runs the passes.
    ///
    /// Bytecode that jumps or prints is refused with `UnsupportedFeature`.
    pub fn compile(&mut self, bytecode: &BytecodeChunk, _func_id: FunctionId) -> (result: Result<
        IR,
        CompileError,
    >)
        ensures
            match first_unsupported(bytecode@.instructions) {
                Some(feature) => result matches Err(CompileError::UnsupportedFeature { feature: f })
                    && f@ == feature,
                None => {
                    &&& result matches Ok(ir)
                    &&& ir@.wf()
                    &&& operands_precede(ir@.nodes)
                    &&& ir@.nodes == folded(
                        lower_all(bytecode@.instructions, bytecode@.constants).nodes,
                    )
                },
            },
    {
        match self.lower_to_ir(bytecode) {
            Ok(ir) => {
                let mut ir = ir;
                self.optimize(&mut ir);
                Ok(ir)
            },
            Err(error) => Err(error),
        }
    }
}

impl Default for TurboFan {
    fn default() -> (compiler: TurboFan)
        ensures
            compiler.stack() == Seq::<NodeId>::empty(),
    {
        TurboFan::new()
    }
}

} // verus!
