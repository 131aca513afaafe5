//! Scopes: the variables declared in a block, a function or the program,
//! and the slot of each.

use vstd::prelude::*;
use vstd::string::StringExecFns;

verus! {

/// The kind of a scope.
#[derive(Debug, Clone, Copy, PartialEq, Eq, Structural)]
pub enum ScopeType {
    Global,
    Function,
    Block,
}

/// The model of a scope: its declarations in order, each a name and a slot,
/// and the scope around it.
pub struct ScopeView {
    pub parent: Option<Box<ScopeView>>,
    pub variables: Seq<(Seq<char>, usize)>,
    pub scope_type: ScopeType,
}

/// The slot of the latest declaration of `name` in `variables`.
pub open spec fn find_variable(variables: Seq<(Seq<char>, usize)>, name: Seq<char>) -> Option<
    usize,
>
    decreases variables.len(),
{
    if variables.len() == 0 {
        None
    } else if variables.last().0 == name {
        Some(variables.last().1)
    } else {
        find_variable(variables.drop_last(), name)
    }
}

impl ScopeView {
    /// An empty scope of the given kind inside `parent`.
    pub open spec fn empty(scope_type: ScopeType, parent: Option<Box<ScopeView>>) -> ScopeView {
        ScopeView { parent, variables: Seq::empty(), scope_type }
    }

    /// The number of variables declared in this scope, which is the slot of
    /// the next one.
    pub open spec fn local_count(self) -> nat {
        self.variables.len()
    }

    /// The scope after the declaration of `name`, which gets the next slot.
    pub open spec fn declare(self, name: Seq<char>) -> ScopeView {
        ScopeView { variables: self.variables.push((name, self.variables.len() as usize)), ..self }
    }

    /// The slot of `name`: that of its latest declaration in this scope, or
    /// else what the scope around it gives.
    pub open spec fn lookup(self, name: Seq<char>) -> Option<usize>
        decreases self,
    {
        match find_variable(self.variables, name) {
            Some(index) => Some(index),
            None => match self.parent {
                Some(parent) => parent.lookup(name),
                None => None,
            },
        }
    }
}

/// A scope: the variables declared in it, each with its slot, and the scope
/// around it. The declarations are kept in order, so that the number of
/// them is the next free slot.
#[derive(Debug)]
pub struct Scope {
    parent: Option<Box<Scope>>,
    variables: Vec<(String, usize)>,
    scope_type: ScopeType,
}

/// The models of the declarations in `variables`.
pub open spec fn variable_views(variables: Seq<(String, usize)>) -> Seq<(Seq<char>, usize)> {
    variables.map_values(|v: (String, usize)| (v.0@, v.1))
}

impl Clone for Scope {
    fn clone(&self) -> (copy: Scope)
        ensures
            copy@ == self@,
    {
        self.duplicate()
    }
}

impl View for Scope {
    type V = ScopeView;

    closed spec fn view(&self) -> ScopeView {
        self.model()
    }
}

impl Scope {
    /// The model of the scope and of the scopes around it.
    pub closed spec fn model(self) -> ScopeView
        decreases self,
    {
        ScopeView {
            parent: match self.parent {
                Some(parent) => Some(Box::new(parent.model())),
                None => None,
            },
            variables: variable_views(self.variables@),
            scope_type: self.scope_type,
        }
    }

    /// An empty scope of the given kind inside `parent`.
    pub fn new(scope_type: ScopeType, parent: Option<Box<Scope>>) -> (scope: Scope)
        ensures
            scope@ == ScopeView::empty(
                scope_type,
                match parent {
                    Some(p) => Some(Box::new(p@)),
                    None => None,
                },
            ),
    {
        let scope = Scope { parent, variables: Vec::new(), scope_type };
        assert(scope@.variables =~= Seq::empty());
        scope
    }

    /// An empty global scope.
    pub fn global() -> (scope: Scope)
        ensures
            scope@ == ScopeView::empty(ScopeType::Global, None),
    {
        Scope::new(ScopeType::Global, None)
    }

    /// A copy of the scope, with the scopes around it.
    pub fn duplicate(&self) -> (copy: Scope)
        ensures
            copy@ == self@,
        decreases self,
    {
        let parent = match &self.parent {
            Some(parent) => Some(Box::new(parent.duplicate())),
            None => None,
        };
        let mut variables: Vec<(String, usize)> = Vec::new();
        let mut i: usize = 0;
        while i < self.variables.len()
            invariant
                i <= self.variables.len(),
                variables@.len() == i,
                variable_views(variables@) == variable_views(self.variables@).subrange(0, i as int),
            decreases self.variables.len() - i,
        {
            let entry = &self.variables[i];
            variables.push((entry.0.clone(), entry.1));
            assert(variable_views(variables@) =~= variable_views(self.variables@).subrange(
                0,
                i + 1,
            ));
            i += 1;
        }
        assert(variable_views(variables@) =~= variable_views(self.variables@));
        Scope { parent, variables, scope_type: self.scope_type }
    }

    /// An empty function scope inside a copy of this scope.
    pub fn function_scope(&self) -> (scope: Scope)
        ensures
            scope@ == ScopeView::empty(ScopeType::Function, Some(Box::new(self@))),
    {
        Scope::new(ScopeType::Function, Some(Box::new(self.duplicate())))
    }

    /// An empty block scope inside a copy of this scope.
    pub fn block_scope(&self) -> (scope: Scope)
        ensures
            scope@ == ScopeView::empty(ScopeType::Block, Some(Box::new(self@))),
    {
        Scope::new(ScopeType::Block, Some(Box::new(self.duplicate())))
    }

    /// Declares `name` in this scope and returns its slot: the number of
    /// declarations made in this scope before. A name declared again gets a
    /// new slot, which lookups then find.
    pub fn declare(&mut self, name: String) -> (index: usize)
        ensures
            index == old(self)@.local_count(),
            final(self)@ == old(self)@.declare(name@),
    {
        let index = self.variables.len();
        self.variables.push((name, index));
        assert(self@.variables =~= old(self)@.variables.push((name@, index)));
        index
    }

    /// The slot of `name`: that of its latest declaration in this scope, or
    /// else what the scope around it gives.
    pub fn lookup(&self, name: &str) -> (index: Option<usize>)
        ensures
            index == self@.lookup(name@),
        decreases self,
    {
        let key = String::from_str(name);
        let ghost views = variable_views(self.variables@);
        let mut i: usize = self.variables.len();
        assert(views.subrange(0, i as int) =~= views);
        while i > 0
            invariant
                i <= self.variables.len(),
                key@ == name@,
                views == variable_views(self.variables@),
                find_variable(views, name@) == find_variable(views.subrange(0, i as int), name@),
            decreases i,
        {
            let entry = &self.variables[i - 1];
            proof {
                let prefix = views.subrange(0, i as int);
                assert(prefix.last() == (entry.0@, entry.1));
                assert(prefix.drop_last() =~= views.subrange(0, i - 1));
            }
            if entry.0 == key {
                return Some(entry.1);
            }
            i -= 1;
        }
        match &self.parent {
            Some(parent) => parent.lookup(name),
            None => None,
        }
    }

    /// The kind of this scope.
    pub fn scope_type(&self) -> (scope_type: &ScopeType)
        ensures
            *scope_type == self@.scope_type,
    {
        &self.scope_type
    }

    /// The number of variables declared in this scope.
    pub fn local_count(&self) -> (count: usize)
        ensures
            count == self@.local_count(),
    {
        self.variables.len()
    }
}

} // verus!
