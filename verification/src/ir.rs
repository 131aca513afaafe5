//! The intermediate representation: value nodes addressed by stable ids.

use vstd::prelude::*;

verus! {

/// The id of an IR node.
pub type NodeId = usize;

/// What is known of the type of a value.
#[derive(Debug, Clone, Copy, PartialEq, Eq, Structural)]
pub enum Type {
    Number,
    Unknown,
}

/// One value node. Operands are the ids of other nodes.
///
/// A `Constant` carries the bit pattern of a binary64 number.
#[allow(inconsistent_fields)]
#[derive(Debug, Clone, PartialEq)]
pub enum IRNode {
    /// A constant number.
    Constant { value: u64, id: NodeId },
    /// The sum of two nodes.
    Add { left: NodeId, right: NodeId, id: NodeId },
    /// The difference of two nodes.
    Sub { left: NodeId, right: NodeId, id: NodeId },
    /// The product of two nodes.
    Mul { left: NodeId, right: NodeId, id: NodeId },
    /// The quotient of two nodes.
    Div { left: NodeId, right: NodeId, id: NodeId },
    /// The value of a local slot.
    LoadLocal { index: usize, id: NodeId },
    /// A store of a node's value to a local slot.
    StoreLocal { index: usize, value: NodeId, id: NodeId },
    /// A call of a node with argument nodes.
    Call { callee: NodeId, args: Vec<NodeId>, id: NodeId },
    /// The return of a node's value.
    Return { value: NodeId, id: NodeId },
    /// The assumption that a node's value has a type.
    TypeGuard { value: NodeId, expected_type: Type, id: NodeId },
}

/// The model of a node: the arguments of a call as a sequence.
#[allow(inconsistent_fields)]
pub enum NodeView {
    Constant { value: u64, id: NodeId },
    Add { left: NodeId, right: NodeId, id: NodeId },
    Sub { left: NodeId, right: NodeId, id: NodeId },
    Mul { left: NodeId, right: NodeId, id: NodeId },
    Div { left: NodeId, right: NodeId, id: NodeId },
    LoadLocal { index: usize, id: NodeId },
    StoreLocal { index: usize, value: NodeId, id: NodeId },
    Call { callee: NodeId, args: Seq<NodeId>, id: NodeId },
    Return { value: NodeId, id: NodeId },
    TypeGuard { value: NodeId, expected_type: Type, id: NodeId },
}

impl NodeView {
    /// The id of the node.
    pub open spec fn id(self) -> NodeId {
        match self {
            NodeView::Constant { id, .. } => id,
            NodeView::Add { id, .. } => id,
            NodeView::Sub { id, .. } => id,
            NodeView::Mul { id, .. } => id,
            NodeView::Div { id, .. } => id,
            NodeView::LoadLocal { id, .. } => id,
            NodeView::StoreLocal { id, .. } => id,
            NodeView::Call { id, .. } => id,
            NodeView::Return { id, .. } => id,
            NodeView::TypeGuard { id, .. } => id,
        }
    }

    /// The ids of the nodes that this node reads.
    pub open spec fn operands(self) -> Seq<NodeId> {
        match self {
            NodeView::Constant { .. } => Seq::empty(),
            NodeView::Add { left, right, .. } => seq![left, right],
            NodeView::Sub { left, right, .. } => seq![left, right],
            NodeView::Mul { left, right, .. } => seq![left, right],
            NodeView::Div { left, right, .. } => seq![left, right],
            NodeView::LoadLocal { .. } => Seq::empty(),
            NodeView::StoreLocal { value, .. } => seq![value],
            NodeView::Call { callee, args, .. } => seq![callee] + args,
            NodeView::Return { value, .. } => seq![value],
            NodeView::TypeGuard { value, .. } => seq![value],
        }
    }

    /// Whether every operand was allocated before this node.
    pub open spec fn operands_precede(self) -> bool {
        forall|k: int| 0 <= k < self.operands().len() ==> #[trigger] self.operands()[k] < self.id()
    }
}

impl View for IRNode {
    type V = NodeView;

    open spec fn view(&self) -> NodeView {
        match self {
            IRNode::Constant { value, id } => NodeView::Constant { value: *value, id: *id },
            IRNode::Add { left, right, id } => NodeView::Add {
                left: *left,
                right: *right,
                id: *id,
            },
            IRNode::Sub { left, right, id } => NodeView::Sub {
                left: *left,
                right: *right,
                id: *id,
            },
            IRNode::Mul { left, right, id } => NodeView::Mul {
                left: *left,
                right: *right,
                id: *id,
            },
            IRNode::Div { left, right, id } => NodeView::Div {
                left: *left,
                right: *right,
                id: *id,
            },
            IRNode::LoadLocal { index, id } => NodeView::LoadLocal { index: *index, id: *id },
            IRNode::StoreLocal { index, value, id } => NodeView::StoreLocal {
                index: *index,
                value: *value,
                id: *id,
            },
            IRNode::Call { callee, args, id } => NodeView::Call {
                callee: *callee,
                args: args@,
                id: *id,
            },
            IRNode::Return { value, id } => NodeView::Return { value: *value, id: *id },
            IRNode::TypeGuard { value, expected_type, id } => NodeView::TypeGuard {
                value: *value,
                expected_type: *expected_type,
                id: *id,
            },
        }
    }
}

impl IRNode {
    /// The id of the node.
    pub fn id(&self) -> (id: NodeId)
        ensures
            id == self@.id(),
    {
        match self {
            IRNode::Constant { id, .. } => *id,
            IRNode::Add { id, .. } => *id,
            IRNode::Sub { id, .. } => *id,
            IRNode::Mul { id, .. } => *id,
            IRNode::Div { id, .. } => *id,
            IRNode::LoadLocal { id, .. } => *id,
            IRNode::StoreLocal { id, .. } => *id,
            IRNode::Call { id, .. } => *id,
            IRNode::Return { id, .. } => *id,
            IRNode::TypeGuard { id, .. } => *id,
        }
    }
}

/// The models of the nodes in `nodes`, in order.
pub open spec fn node_views(nodes: Seq<IRNode>) -> Seq<NodeView> {
    nodes.map_values(|n: IRNode| n@)
}

/// Whether each node's id is its position in `nodes`.
pub open spec fn ids_are_positions(nodes: Seq<NodeView>) -> bool {
    forall|i: int| 0 <= i < nodes.len() ==> (#[trigger] nodes[i]).id() == i
}

/// Whether every operand of every node in `nodes` was allocated before it.
pub open spec fn operands_precede(nodes: Seq<NodeView>) -> bool {
    forall|i: int| 0 <= i < nodes.len() ==> (#[trigger] nodes[i]).operands_precede()
}

/// The position of the first node in `nodes` with the id `id`.
pub open spec fn position_of(nodes: Seq<NodeView>, id: NodeId) -> Option<int>
    decreases nodes.len(),
{
    if nodes.len() == 0 {
        None
    } else {
        match position_of(nodes.drop_last(), id) {
            Some(i) => Some(i),
            None => if nodes.last().id() == id {
                Some(nodes.len() - 1)
            } else {
                None
            },
        }
    }
}

/// `position_of` names the first node with the id, if one has it.
pub proof fn lemma_position_of(nodes: Seq<NodeView>, id: NodeId)
    ensures
        match position_of(nodes, id) {
            Some(i) => {
                &&& 0 <= i < nodes.len()
                &&& nodes[i].id() == id
                &&& forall|j: int| 0 <= j < i ==> (#[trigger] nodes[j]).id() != id
            },
            None => forall|j: int| 0 <= j < nodes.len() ==> (#[trigger] nodes[j]).id() != id,
        },
    decreases nodes.len(),
{
    if nodes.len() > 0 {
        let init = nodes.drop_last();
        lemma_position_of(init, id);
        assert(forall|j: int| 0 <= j < init.len() ==> init[j] == nodes[j]);
        match position_of(init, id) {
            Some(i) => {},
            None => {
                assert forall|j: int| 0 <= j < init.len() implies (#[trigger] nodes[j]).id()
                    != id by {
                    assert(init[j].id() != id);
                }
            },
        }
    }
}

/// Where each node's id is its position, as in every IR that is built
/// through the allocator, an id names one node: the node at that position.
pub proof fn law_id_names_one_node(nodes: Seq<NodeView>, id: NodeId)
    requires
        ids_are_positions(nodes),
    ensures
        position_of(nodes, id) == if id < nodes.len() {
            Some(id as int)
        } else {
            None
        },
        forall|i: int, j: int|
            0 <= i < nodes.len() && 0 <= j < nodes.len() && i != j ==> (#[trigger] nodes[i]).id()
                != (#[trigger] nodes[j]).id(),
{
    lemma_position_of(nodes, id);
    match position_of(nodes, id) {
        Some(i) => {
            assert(nodes[i].id() == i);
        },
        None => {
            if id < nodes.len() {
                assert(nodes[id as int].id() == id);
            }
        },
    }
}

/// The model of an IR: its nodes and the next id to allocate.
pub struct IRView {
    pub nodes: Seq<NodeView>,
    pub next_id: NodeId,
}

impl IRView {
    /// Whether the IR is well formed: ids were allocated in order, one per
    /// node, so that each node's id is its position and no id occurs twice.
    pub open spec fn wf(self) -> bool {
        &&& self.next_id == self.nodes.len()
        &&& ids_are_positions(self.nodes)
    }

    /// The IR with `node` appended under the next id.
    pub open spec fn append(self, node: NodeView) -> IRView {
        IRView { nodes: self.nodes.push(node), next_id: (self.next_id + 1) as usize }
    }
}

/// An append-only collection of nodes and the allocator of their ids.
#[derive(Debug, Clone)]
pub struct IR {
    pub nodes: Vec<IRNode>,
    next_id: NodeId,
}

impl View for IR {
    type V = IRView;

    closed spec fn view(&self) -> IRView {
        IRView { nodes: node_views(self.nodes@), next_id: self.next_id }
    }
}

impl IR {
    /// An empty IR.
    pub fn new() -> (ir: IR)
        ensures
            ir@.nodes == Seq::<NodeView>::empty(),
            ir@.next_id == 0,
            ir@.wf(),
    {
        let ir = IR { nodes: Vec::new(), next_id: 0 };
        assert(ir@.nodes =~= Seq::<NodeView>::empty());
        ir
    }

    /// Appends `node`, which carries the next id, and advances the allocator.
    fn append(&mut self, node: IRNode) -> (id: NodeId)
        requires
            old(self)@.wf(),
            node@.id() == old(self)@.next_id,
        ensures
            id == old(self)@.next_id,
            final(self)@ == old(self)@.append(node@),
            final(self)@.wf(),
    {
        let id = self.next_id;
        self.nodes.push(node);
        self.next_id = self.nodes.len();
        assert(self@.nodes =~= old(self)@.nodes.push(node@));
        id
    }

    /// Adds a constant node and returns its id.
    pub fn add_constant(&mut self, value: u64) -> (id: NodeId)
        requires
            old(self)@.wf(),
        ensures
            id == old(self)@.next_id,
            final(self)@ == old(self)@.append(NodeView::Constant { value, id }),
            final(self)@.wf(),
    {
        let id = self.next_id;
        self.append(IRNode::Constant { value, id })
    }

    /// Adds an addition node and returns its id.
    pub fn add_add(&mut self, left: NodeId, right: NodeId) -> (id: NodeId)
        requires
            old(self)@.wf(),
        ensures
            id == old(self)@.next_id,
            final(self)@ == old(self)@.append(NodeView::Add { left, right, id }),
            final(self)@.wf(),
    {
        let id = self.next_id;
        self.append(IRNode::Add { left, right, id })
    }

    /// Adds a subtraction node and returns its id.
    pub fn add_sub(&mut self, left: NodeId, right: NodeId) -> (id: NodeId)
        requires
            old(self)@.wf(),
        ensures
            id == old(self)@.next_id,
            final(self)@ == old(self)@.append(NodeView::Sub { left, right, id }),
            final(self)@.wf(),
    {
        let id = self.next_id;
        self.append(IRNode::Sub { left, right, id })
    }

    /// Adds a multiplication node and returns its id.
    pub fn add_mul(&mut self, left: NodeId, right: NodeId) -> (id: NodeId)
        requires
            old(self)@.wf(),
        ensures
            id == old(self)@.next_id,
            final(self)@ == old(self)@.append(NodeView::Mul { left, right, id }),
            final(self)@.wf(),
    {
        let id = self.next_id;
        self.append(IRNode::Mul { left, right, id })
    }

    /// Adds a division node and returns its id.
    pub fn add_div(&mut self, left: NodeId, right: NodeId) -> (id: NodeId)
        requires
            old(self)@.wf(),
        ensures
            id == old(self)@.next_id,
            final(self)@ == old(self)@.append(NodeView::Div { left, right, id }),
            final(self)@.wf(),
    {
        let id = self.next_id;
        self.append(IRNode::Div { left, right, id })
    }

    /// Adds a node that loads a local slot and returns its id.
    pub fn add_load_local(&mut self, index: usize) -> (id: NodeId)
        requires
            old(self)@.wf(),
        ensures
            id == old(self)@.next_id,
            final(self)@ == old(self)@.append(NodeView::LoadLocal { index, id }),
            final(self)@.wf(),
    {
        let id = self.next_id;
        self.append(IRNode::LoadLocal { index, id })
    }

    /// Adds a node that stores `value` to a local slot and returns its id.
    pub fn add_store_local(&mut self, index: usize, value: NodeId) -> (id: NodeId)
        requires
            old(self)@.wf(),
        ensures
            id == old(self)@.next_id,
            final(self)@ == old(self)@.append(NodeView::StoreLocal { index, value, id }),
            final(self)@.wf(),
    {
        let id = self.next_id;
        self.append(IRNode::StoreLocal { index, value, id })
    }

    /// Adds a call node and returns its id.
    pub fn add_call(&mut self, callee: NodeId, args: Vec<NodeId>) -> (id: NodeId)
        requires
            old(self)@.wf(),
        ensures
            id == old(self)@.next_id,
            final(self)@ == old(self)@.append(NodeView::Call { callee, args: args@, id }),
            final(self)@.wf(),
    {
        let id = self.next_id;
        self.append(IRNode::Call { callee, args, id })
    }

    /// Adds a return node and returns its id.
    pub fn add_return(&mut self, value: NodeId) -> (id: NodeId)
        requires
            old(self)@.wf(),
        ensures
            id == old(self)@.next_id,
            final(self)@ == old(self)@.append(NodeView::Return { value, id }),
            final(self)@.wf(),
    {
        let id = self.next_id;
        self.append(IRNode::Return { value, id })
    }

    /// Adds a type guard on `value` and returns its id.
    pub fn add_type_guard(&mut self, value: NodeId, expected_type: Type) -> (id: NodeId)
        requires
            old(self)@.wf(),
        ensures
            id == old(self)@.next_id,
            final(self)@ == old(self)@.append(NodeView::TypeGuard { value, expected_type, id }),
            final(self)@.wf(),
    {
        let id = self.next_id;
        self.append(IRNode::TypeGuard { value, expected_type, id })
    }

    /// The number of nodes.
    pub fn len(&self) -> (n: usize)
        ensures
            n == self@.nodes.len(),
    {
        self.nodes.len()
    }

    /// The node at position `index`.
    pub fn node(&self, index: usize) -> (node: &IRNode)
        requires
            index < self@.nodes.len(),
        ensures
            node@ == self@.nodes[index as int],
    {
        &self.nodes[index]
    }

    /// Puts `node` at position `index`, in place of the node there.
    pub fn set_node(&mut self, index: usize, node: IRNode)
        requires
            index < old(self)@.nodes.len(),
        ensures
            final(self)@.nodes == old(self)@.nodes.update(index as int, node@),
            final(self)@.next_id == old(self)@.next_id,
    {
        self.nodes.set(index, node);
        assert(self@.nodes =~= old(self)@.nodes.update(index as int, node@));
    }

    /// The first node with the id `id`, if there is one.
    pub fn get_node(&self, id: NodeId) -> (node: Option<&IRNode>)
        ensures
            match position_of(self@.nodes, id) {
                Some(i) => node matches Some(n) && n@ == self@.nodes[i],
                None => node.is_none(),
            },
    {
        proof {
            lemma_position_of(self@.nodes, id);
        }
        let mut i: usize = 0;
        while i < self.nodes.len()
            invariant
                i <= self.nodes.len(),
                forall|j: int| 0 <= j < i ==> (#[trigger] self@.nodes[j]).id() != id,
            decreases self.nodes.len() - i,
        {
            if self.nodes[i].id() == id {
                proof {
                    lemma_position_of(self@.nodes, id);
                    assert(self@.nodes[i as int].id() == id);
                }
                return Some(&self.nodes[i]);
            }
            i += 1;
        }
        proof {
            lemma_position_of(self@.nodes, id);
        }
        None
    }

    /// The first node with the id `id`, to rewrite it in place, if there is
    /// one. What is written through the reference takes the node's place.
    pub fn get_node_mut(&mut self, id: NodeId) -> (node: Option<&mut IRNode>)
        ensures
            match position_of(old(self)@.nodes, id) {
                Some(i) => node matches Some(n) && n@ == old(self)@.nodes[i] && final(self)@
                    == (IRView {
                    nodes: old(self)@.nodes.update(i, final(n)@),
                    next_id: old(self)@.next_id,
                }),
                None => node.is_none() && final(self)@ == old(self)@,
            },
    {
        proof {
            lemma_position_of(self@.nodes, id);
        }
        let mut i: usize = 0;
        while i < self.nodes.len()
            invariant
                i <= self.nodes.len(),
                *self == *old(self),
                forall|j: int| 0 <= j < i ==> (#[trigger] self@.nodes[j]).id() != id,
            decreases self.nodes.len() - i,
        {
            if self.nodes[i].id() == id {
                proof {
                    lemma_position_of(self@.nodes, id);
                    assert(self@.nodes[i as int].id() == id);
                }
                let node = &mut self.nodes[i];
                proof {
                    assert(node_views(old(self).nodes@.update(i as int, *final(node)))
                        =~= old(self)@.nodes.update(i as int, final(node)@));
                }
                return Some(node);
            }
            i += 1;
        }
        proof {
            lemma_position_of(self@.nodes, id);
        }
        None
    }

    /// Replaces the first node with the id `id` by `node`, which carries the
    /// same id; returns whether there was such a node.
    pub fn replace_node(&mut self, id: NodeId, node: IRNode) -> (found: bool)
        requires
            node@.id() == id,
        ensures
            final(self)@.next_id == old(self)@.next_id,
            match position_of(old(self)@.nodes, id) {
                Some(i) => found && final(self)@.nodes == old(self)@.nodes.update(i, node@),
                None => !found && final(self)@ == old(self)@,
            },
    {
        proof {
            lemma_position_of(self@.nodes, id);
        }
        let mut i: usize = 0;
        while i < self.nodes.len()
            invariant
                i <= self.nodes.len(),
                *self == *old(self),
                forall|j: int| 0 <= j < i ==> (#[trigger] self@.nodes[j]).id() != id,
            decreases self.nodes.len() - i,
        {
            if self.nodes[i].id() == id {
                proof {
                    lemma_position_of(self@.nodes, id);
                    assert(self@.nodes[i as int].id() == id);
                }
                self.nodes.set(i, node);
                assert(self@.nodes =~= old(self)@.nodes.update(i as int, node@));
                return true;
            }
            i += 1;
        }
        proof {
            lemma_position_of(self@.nodes, id);
        }
        false
    }
}

impl Default for IR {
    fn default() -> (ir: IR)
        ensures
            ir@.nodes == Seq::<NodeView>::empty(),
            ir@.next_id == 0,
            ir@.wf(),
    {
        IR::new()
    }
}

} // verus!
