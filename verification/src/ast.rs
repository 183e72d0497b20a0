//! The program tree: a start node followed by a chain of flow nodes, some of
//! which own further chains.

use vstd::prelude::*;

verus! {

/// The root of a program. `next` is the first node of the main chain.
#[derive(Debug, PartialEq, Eq)]
pub struct Start {
    pub next: Option<Flow>,
}

impl Default for Start {
    /// The empty program.
    fn default() -> (start: Self)
        ensures
            start == (Start { next: None }),
    {
        Start { next: None }
    }
}

/// What a `while` loop tests before each round.
#[derive(Clone, Copy, Debug, PartialEq, Eq, Structural)]
pub enum Condition {
    IsBlocked,
    IsPathClear,
}

/// How often a `repeat` loop runs its body.
#[derive(Clone, Copy, Debug, PartialEq, Eq, Structural)]
pub enum IntegerValue {
    One,
    Two,
    Three,
    Four,
    Five,
    Six,
    Seven,
    Eight,
    Infinity,
}

/// A single action.
#[derive(Clone, Copy, Debug, PartialEq, Eq, Structural)]
pub enum Command {
    MoveBackwards,
    MoveForwards,
    Shoot,
    TurnLeft,
    TurnRight,
}

/// The loops that go by a condition.
#[derive(Clone, Copy, Debug, PartialEq, Eq, Structural)]
pub enum BooleanMethodKind {
    While,
}

/// A loop that runs its body for as long as its condition holds.
#[derive(Debug, PartialEq, Eq)]
pub struct BooleanMethod {
    pub kind: BooleanMethodKind,
    pub body: Option<Box<Flow>>,
    pub condition: Option<Condition>,
}

/// The loops that go by a count.
#[derive(Clone, Copy, Debug, PartialEq, Eq, Structural)]
pub enum IntegerMethodKind {
    Repeat,
}

/// A loop that runs its body a given number of times.
#[derive(Debug, PartialEq, Eq)]
pub struct IntegerMethod {
    pub kind: IntegerMethodKind,
    pub body: Option<Box<Flow>>,
    pub value: Option<IntegerValue>,
}

/// The tests that a branch can make.
#[derive(Clone, Copy, Debug, PartialEq, Eq, Structural)]
pub enum ConditionalKind {
    Blocked,
}

/// A branch. The chain taken when the test holds is the `next` of the flow
/// node that owns this value; `alternate` is the chain taken when it fails.
#[derive(Debug, PartialEq, Eq)]
pub struct Conditional {
    pub kind: ConditionalKind,
    /// The false path
    pub alternate: Option<Box<Flow>>,
}

/// What a node of a chain is: a command, a loop or a branch.
#[derive(Debug, PartialEq, Eq)]
pub enum FlowKind {
    Command(Command),
    BooleanMethod(BooleanMethod),
    IntegerMethod(IntegerMethod),
    Conditional(Conditional),
}

/// One node of a chain, with the rest of the chain after it.
#[derive(Debug, PartialEq, Eq)]
pub struct Flow {
    pub kind: FlowKind,
    pub next: Option<Box<Flow>>,
}

impl Flow {
    /// A node of the given kind with nothing after it.
    pub fn new(kind: FlowKind) -> (flow: Self)
        ensures
            flow == (Flow { kind, next: None }),
    {
        Self { kind, next: None }
    }
}

/// How many nodes lie on the longest way down a chain, if there is a chain.
pub open spec fn depth_of(chain: Option<Box<Flow>>) -> nat
    decreases chain,
{
    match chain {
        Some(flow) => flow.depth(),
        None => 0,
    }
}

impl Flow {
    /// How many nodes lie on the longest way down from this node, the node
    /// itself counted: a way goes on to the node after this one, or into
    /// what this node holds.
    pub open spec fn depth(self) -> nat
        decreases self,
    {
        let inside = match self.kind {
            FlowKind::Command(_) => 0,
            FlowKind::BooleanMethod(boolean_method) => depth_of(boolean_method.body),
            FlowKind::IntegerMethod(integer_method) => depth_of(integer_method.body),
            FlowKind::Conditional(conditional) => depth_of(conditional.alternate),
        };
        let after = depth_of(self.next);
        if inside <= after {
            after + 1
        } else {
            inside + 1
        }
    }

    /// This node with another chain after it.
    pub open spec fn with_next(self, next: Option<Box<Flow>>) -> Flow {
        Flow { kind: self.kind, next }
    }

    /// This node, a branch, with another chain on the side that is taken
    /// when its test fails.
    pub open spec fn with_alternate(self, alternate: Option<Box<Flow>>) -> Flow
        recommends
            self.kind is Conditional,
    {
        Flow {
            kind: FlowKind::Conditional(
                Conditional { kind: self.kind->Conditional_0.kind, alternate },
            ),
            next: self.next,
        }
    }
}

/// The two sides of a branch share nothing: to put another chain on one
/// side leaves the other side as it was.
pub proof fn lemma_branch_sides_are_apart(
    branch: Flow,
    alternate: Option<Box<Flow>>,
    next: Option<Box<Flow>>,
)
    requires
        branch.kind is Conditional,
    ensures
        branch.with_alternate(alternate).next == branch.next,
        branch.with_next(next).kind == branch.kind,
        branch.with_alternate(alternate).with_next(next) == branch.with_next(next).with_alternate(
            alternate,
        ),
{
}

/// A chain as a node's field holds it.
pub open spec fn boxed(chain: Option<Flow>) -> Option<Box<Flow>> {
    match chain {
        Some(flow) => Some(Box::new(flow)),
        None => None,
    }
}

impl Clone for Flow {
    /// A copy of the whole chain.
    fn clone(&self) -> (copy: Self)
        ensures
            copy == *self,
        decreases *self,
    {
        Flow {
            kind: self.kind.clone(),
            next: match &self.next {
                Some(rest) => Some(Box::new((&**rest).clone())),
                None => None,
            },
        }
    }
}

impl Clone for FlowKind {
    /// A copy of the value and of all that it holds.
    fn clone(&self) -> (copy: Self)
        ensures
            copy == *self,
        decreases *self,
    {
        match self {
            FlowKind::Command(command) => FlowKind::Command(*command),
            FlowKind::BooleanMethod(boolean_method) => FlowKind::BooleanMethod(
                boolean_method.clone(),
            ),
            FlowKind::IntegerMethod(integer_method) => FlowKind::IntegerMethod(
                integer_method.clone(),
            ),
            FlowKind::Conditional(conditional) => FlowKind::Conditional(conditional.clone()),
        }
    }
}

impl Clone for BooleanMethod {
    /// A copy of the value and of all that it holds.
    fn clone(&self) -> (copy: Self)
        ensures
            copy == *self,
        decreases *self,
    {
        BooleanMethod {
            kind: self.kind,
            body: match &self.body {
                Some(flow) => Some(Box::new((&**flow).clone())),
                None => None,
            },
            condition: self.condition,
        }
    }
}

impl Clone for IntegerMethod {
    /// A copy of the value and of all that it holds.
    fn clone(&self) -> (copy: Self)
        ensures
            copy == *self,
        decreases *self,
    {
        IntegerMethod {
            kind: self.kind,
            body: match &self.body {
                Some(flow) => Some(Box::new((&**flow).clone())),
                None => None,
            },
            value: self.value,
        }
    }
}

impl Clone for Conditional {
    /// A copy of the value and of all that it holds.
    fn clone(&self) -> (copy: Self)
        ensures
            copy == *self,
        decreases *self,
    {
        Conditional {
            kind: self.kind,
            alternate: match &self.alternate {
                Some(flow) => Some(Box::new((&**flow).clone())),
                None => None,
            },
        }
    }
}

impl Clone for Start {
    /// A copy of the value and of all that it holds.
    fn clone(&self) -> (copy: Self)
        ensures
            copy == *self,
    {
        Start {
            next: match &self.next {
                Some(flow) => Some(flow.clone()),
                None => None,
            },
        }
    }
}

} // verus!
