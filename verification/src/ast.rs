//! The syntax tree of the source language.

use vstd::prelude::*;
use vstd::seq::{axiom_seq_index_decreases, axiom_seq_subrange_decreases};
use vstd::std_specs::vec::{axiom_vec_decreases_to_view, axiom_vec_index_decreases};
use crate::types::Span;

verus! {

/// A binary operator.
#[derive(Debug, Clone, Copy, PartialEq, Eq, Structural)]
pub enum BinOp {
    Add,
    Sub,
    Mul,
    Div,
    Equal,
    Less,
    Greater,
}

/// A node of the syntax tree.
///
/// A `NumberLiteral` carries the bit pattern of a binary64 number.
#[allow(inconsistent_fields)]
#[derive(Debug, PartialEq)]
pub enum ASTNode {
    /// The whole program: its statements.
    Program(Vec<ASTNode>),
    /// A function declaration.
    FunctionDecl { name: String, params: Vec<String>, body: Box<ASTNode>, span: Span },
    /// A variable declaration with its initializer.
    LetDecl { name: String, init: Box<ASTNode>, span: Span },
    /// A `for` loop.
    ForStmt {
        init: Box<ASTNode>,
        cond: Box<ASTNode>,
        update: Box<ASTNode>,
        body: Box<ASTNode>,
        span: Span,
    },
    /// An `if` statement.
    IfStmt {
        cond: Box<ASTNode>,
        then_branch: Box<ASTNode>,
        else_branch: Option<Box<ASTNode>>,
        span: Span,
    },
    /// A `return` statement.
    ReturnStmt { value: Box<ASTNode>, span: Span },
    /// A block of statements.
    BlockStmt { statements: Vec<ASTNode>, span: Span },
    /// A binary expression.
    BinaryExpr { op: BinOp, left: Box<ASTNode>, right: Box<ASTNode>, span: Span },
    /// A call.
    CallExpr { callee: Box<ASTNode>, args: Vec<ASTNode>, span: Span },
    /// A name.
    Identifier { name: String, span: Span },
    /// A number.
    NumberLiteral { value: u64, span: Span },
}

/// The model of a node: texts as sequences of characters, lists as
/// sequences.
#[allow(inconsistent_fields)]
pub enum ASTView {
    Program(Seq<ASTView>),
    FunctionDecl { name: Seq<char>, params: Seq<Seq<char>>, body: Box<ASTView>, span: Span },
    LetDecl { name: Seq<char>, init: Box<ASTView>, span: Span },
    ForStmt {
        init: Box<ASTView>,
        cond: Box<ASTView>,
        update: Box<ASTView>,
        body: Box<ASTView>,
        span: Span,
    },
    IfStmt {
        cond: Box<ASTView>,
        then_branch: Box<ASTView>,
        else_branch: Option<Box<ASTView>>,
        span: Span,
    },
    ReturnStmt { value: Box<ASTView>, span: Span },
    BlockStmt { statements: Seq<ASTView>, span: Span },
    BinaryExpr { op: BinOp, left: Box<ASTView>, right: Box<ASTView>, span: Span },
    CallExpr { callee: Box<ASTView>, args: Seq<ASTView>, span: Span },
    Identifier { name: Seq<char>, span: Span },
    NumberLiteral { value: u64, span: Span },
}

impl ASTView {
    /// The span of the node; a program has the empty span at 0.
    pub open spec fn span(self) -> Span {
        match self {
            ASTView::Program(_) => Span { start: 0, end: 0 },
            ASTView::FunctionDecl { span, .. } => span,
            ASTView::LetDecl { span, .. } => span,
            ASTView::ForStmt { span, .. } => span,
            ASTView::IfStmt { span, .. } => span,
            ASTView::ReturnStmt { span, .. } => span,
            ASTView::BlockStmt { span, .. } => span,
            ASTView::BinaryExpr { span, .. } => span,
            ASTView::CallExpr { span, .. } => span,
            ASTView::Identifier { span, .. } => span,
            ASTView::NumberLiteral { span, .. } => span,
        }
    }
}

/// The models of the texts in `texts`.
pub open spec fn text_views(texts: Seq<String>) -> Seq<Seq<char>> {
    texts.map_values(|t: String| t@)
}

/// The models of the first `k` nodes of `nodes`.
pub open spec fn node_models(nodes: Seq<ASTNode>, k: nat) -> Seq<ASTView>
    decreases nodes, k,
    when k <= nodes.len()
    via node_models_decreases
{
    if k == 0 {
        Seq::empty()
    } else {
        node_models(nodes, (k - 1) as nat).push(nodes[k - 1].model())
    }
}

#[via_fn]
proof fn node_models_decreases(nodes: Seq<ASTNode>, k: nat) {
    broadcast use axiom_seq_index_decreases;

}

/// Lists whose first `k` nodes have the same models have the same models
/// that far.
pub proof fn lemma_models_agree(a: Seq<ASTNode>, b: Seq<ASTNode>, k: nat)
    requires
        k <= a.len(),
        k <= b.len(),
        forall|i: int| 0 <= i < k ==> (#[trigger] a[i])@ == b[i]@,
    ensures
        node_models(a, k) == node_models(b, k),
    decreases k,
{
    if k > 0 {
        lemma_models_agree(a, b, (k - 1) as nat);
        assert(a[k - 1]@ == b[k - 1]@);
    }
}

impl ASTNode {
    /// The model of the node.
    pub open spec fn model(self) -> ASTView
        decreases self, 0nat,
        via Self::model_decreases
    {
        match self {
            ASTNode::Program(statements) => ASTView::Program(
                node_models(statements@, statements@.len()),
            ),
            ASTNode::FunctionDecl { name, params, body, span } => ASTView::FunctionDecl {
                name: name@,
                params: text_views(params@),
                body: Box::new(body.model()),
                span,
            },
            ASTNode::LetDecl { name, init, span } => ASTView::LetDecl {
                name: name@,
                init: Box::new(init.model()),
                span,
            },
            ASTNode::ForStmt { init, cond, update, body, span } => ASTView::ForStmt {
                init: Box::new(init.model()),
                cond: Box::new(cond.model()),
                update: Box::new(update.model()),
                body: Box::new(body.model()),
                span,
            },
            ASTNode::IfStmt { cond, then_branch, else_branch, span } => ASTView::IfStmt {
                cond: Box::new(cond.model()),
                then_branch: Box::new(then_branch.model()),
                else_branch: match else_branch {
                    Some(branch) => Some(Box::new(branch.model())),
                    None => None,
                },
                span,
            },
            ASTNode::ReturnStmt { value, span } => ASTView::ReturnStmt {
                value: Box::new(value.model()),
                span,
            },
            ASTNode::BlockStmt { statements, span } => ASTView::BlockStmt {
                statements: node_models(statements@, statements@.len()),
                span,
            },
            ASTNode::BinaryExpr { op, left, right, span } => ASTView::BinaryExpr {
                op,
                left: Box::new(left.model()),
                right: Box::new(right.model()),
                span,
            },
            ASTNode::CallExpr { callee, args, span } => ASTView::CallExpr {
                callee: Box::new(callee.model()),
                args: node_models(args@, args@.len()),
                span,
            },
            ASTNode::Identifier { name, span } => ASTView::Identifier { name: name@, span },
            ASTNode::NumberLiteral { value, span } => ASTView::NumberLiteral { value, span },
        }
    }

    #[via_fn]
    proof fn model_decreases(self) {
        broadcast use axiom_vec_decreases_to_view;

    }

    /// A copy of the nodes of `nodes`.
    fn duplicate_all(nodes: &Vec<ASTNode>) -> (copy: Vec<ASTNode>)
        ensures
            copy@.len() == nodes@.len(),
            node_models(copy@, copy@.len()) == node_models(nodes@, nodes@.len()),
        decreases nodes, 0nat,
    {
        broadcast use axiom_vec_index_decreases;

        let mut copy: Vec<ASTNode> = Vec::new();
        let mut i: usize = 0;
        while i < nodes.len()
            invariant
                i <= nodes.len(),
                copy@.len() == i,
                forall|k: int| 0 <= k < i ==> (#[trigger] copy@[k])@ == nodes@[k]@,
            decreases nodes.len() - i,
        {
            let node = nodes[i].duplicate();
            copy.push(node);
            i += 1;
        }
        proof {
            lemma_models_agree(copy@, nodes@, copy@.len());
        }
        copy
    }

    /// A copy of the node and of all nodes below it.
    pub fn duplicate(&self) -> (copy: ASTNode)
        ensures
            copy@ == self@,
        decreases self, 1nat,
    {
        match self {
            ASTNode::Program(statements) => ASTNode::Program(Self::duplicate_all(statements)),
            ASTNode::FunctionDecl { name, params, body, span } => {
                let mut names: Vec<String> = Vec::new();
                let mut i: usize = 0;
                while i < params.len()
                    invariant
                        i <= params.len(),
                        names@ == params@.subrange(0, i as int),
                    decreases params.len() - i,
                {
                    names.push(params[i].clone());
                    assert(names@ =~= params@.subrange(0, i + 1));
                    i += 1;
                }
                assert(names@ =~= params@);
                ASTNode::FunctionDecl {
                    name: name.clone(),
                    params: names,
                    body: Box::new(body.duplicate()),
                    span: *span,
                }
            },
            ASTNode::LetDecl { name, init, span } => ASTNode::LetDecl {
                name: name.clone(),
                init: Box::new(init.duplicate()),
                span: *span,
            },
            ASTNode::ForStmt { init, cond, update, body, span } => ASTNode::ForStmt {
                init: Box::new(init.duplicate()),
                cond: Box::new(cond.duplicate()),
                update: Box::new(update.duplicate()),
                body: Box::new(body.duplicate()),
                span: *span,
            },
            ASTNode::IfStmt { cond, then_branch, else_branch, span } => ASTNode::IfStmt {
                cond: Box::new(cond.duplicate()),
                then_branch: Box::new(then_branch.duplicate()),
                else_branch: match else_branch {
                    Some(branch) => Some(Box::new(branch.duplicate())),
                    None => None,
                },
                span: *span,
            },
            ASTNode::ReturnStmt { value, span } => ASTNode::ReturnStmt {
                value: Box::new(value.duplicate()),
                span: *span,
            },
            ASTNode::BlockStmt { statements, span } => ASTNode::BlockStmt {
                statements: Self::duplicate_all(statements),
                span: *span,
            },
            ASTNode::BinaryExpr { op, left, right, span } => ASTNode::BinaryExpr {
                op: *op,
                left: Box::new(left.duplicate()),
                right: Box::new(right.duplicate()),
                span: *span,
            },
            ASTNode::CallExpr { callee, args, span } => ASTNode::CallExpr {
                callee: Box::new(callee.duplicate()),
                args: Self::duplicate_all(args),
                span: *span,
            },
            ASTNode::Identifier { name, span } => ASTNode::Identifier {
                name: name.clone(),
                span: *span,
            },
            ASTNode::NumberLiteral { value, span } => ASTNode::NumberLiteral {
                value: *value,
                span: *span,
            },
        }
    }

    /// The span of the node; a program has the empty span at 0.
    pub fn span(&self) -> (span: Span)
        ensures
            span == self@.span(),
    {
        match self {
            ASTNode::Program(_) => Span::new(0, 0),
            ASTNode::FunctionDecl { span, .. } => *span,
            ASTNode::LetDecl { span, .. } => *span,
            ASTNode::ForStmt { span, .. } => *span,
            ASTNode::IfStmt { span, .. } => *span,
            ASTNode::ReturnStmt { span, .. } => *span,
            ASTNode::BlockStmt { span, .. } => *span,
            ASTNode::BinaryExpr { span, .. } => *span,
            ASTNode::CallExpr { span, .. } => *span,
            ASTNode::Identifier { span, .. } => *span,
            ASTNode::NumberLiteral { span, .. } => *span,
        }
    }
}

impl Clone for ASTNode {
    fn clone(&self) -> (copy: ASTNode)
        ensures
            copy@ == self@,
    {
        self.duplicate()
    }
}

impl View for ASTNode {
    type V = ASTView;

    open spec fn view(&self) -> ASTView {
        self.model()
    }
}

/// A syntax tree, by its root.
#[derive(Debug, Clone, PartialEq)]
pub struct AST {
    pub root: ASTNode,
}

impl AST {
    /// The tree with the given root.
    pub fn new(root: ASTNode) -> (ast: AST)
        ensures
            ast.root == root,
    {
        AST { root }
    }
}

} // verus!
