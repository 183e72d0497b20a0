//! Parsing a batch in one call, and building a program by hand.

use std::collections::VecDeque;
use vstd::prelude::*;
use crate::ast::{
    boxed, BooleanMethod, BooleanMethodKind, Command, Condition, Conditional, ConditionalKind, Flow,
    FlowKind, IntegerMethod, IntegerMethodKind, IntegerValue, Start,
};
use crate::parser::{Batch, Link, Parser};
use crate::tokens::{Token, TokenCode};

verus! {

/// The program that a batch of tokens spells, if it holds a start token.
pub fn parse(tokens: Vec<Token>, links: Vec<Link>) -> (program: Option<Start>)
    ensures
        program == (Batch { tokens: tokens@, links: links@ }).program(),
        program is Some <==> exists|at: int|
            0 <= at < tokens@.len() && (#[trigger] tokens@[at]).code == TokenCode::Start,
{
    Parser::new(tokens, links).parse()
}

/// A builder for a program, with no nodes yet.
pub fn start() -> (builder: TangiblStartBuilder)
    ensures
        builder@ == Seq::<Flow>::empty(),
{
    TangiblStartBuilder::default()
}

/// A builder for a chain, with no nodes yet.
pub fn flow() -> (builder: TangiblFlowBuilder)
    ensures
        builder@ == Seq::<Flow>::empty(),
{
    TangiblFlowBuilder::default()
}

/// `node` with `rest` after it, if there is a rest; else `node` as it is.
pub open spec fn followed_by(node: Flow, rest: Option<Flow>) -> Flow {
    match rest {
        Some(flow) => Flow { kind: node.kind, next: Some(Box::new(flow)) },
        None => node,
    }
}

/// The chain made of `nodes` in their order, with `tail` after the last of
/// them.
pub open spec fn chain_onto(nodes: Seq<Flow>, tail: Option<Flow>) -> Option<Flow>
    decreases nodes.len(),
{
    if nodes.len() == 0 {
        tail
    } else {
        Some(followed_by(nodes.first(), chain_onto(nodes.drop_first(), tail)))
    }
}

/// The chain made of `nodes` in their order: each node is followed by the
/// next one, and the last keeps what it had after it. No nodes make no chain.
pub open spec fn chain_of(nodes: Seq<Flow>) -> Option<Flow> {
    chain_onto(nodes, None)
}

/// To put a chain after `nodes` and one more node is to put that node,
/// followed by the chain, after `nodes`.
pub proof fn lemma_chain_onto_last(nodes: Seq<Flow>, last: Flow, tail: Option<Flow>)
    ensures
        chain_onto(nodes.push(last), tail) == chain_onto(nodes, Some(followed_by(last, tail))),
    decreases nodes.len(),
{
    if nodes.len() == 0 {
        assert(nodes.push(last).drop_first() =~= nodes);
        assert(chain_onto(nodes.push(last).drop_first(), tail) == tail);
    } else {
        assert(nodes.push(last).drop_first() =~= nodes.drop_first().push(last));
        lemma_chain_onto_last(nodes.drop_first(), last, tail);
    }
}

/// Builds a program node by node: each `with_` method puts one more node at
/// the end of the program's chain.
#[derive(Debug)]
pub struct TangiblStartBuilder {
    /// The main flow for the program. As if it were the 'main' function of many common languages.
    flow_builder: TangiblFlowBuilder,
}

impl View for TangiblStartBuilder {
    type V = Seq<Flow>;

    /// The nodes given so far, in the order in which they were given.
    closed spec fn view(&self) -> Seq<Flow> {
        self.flow_builder@
    }
}

impl Default for TangiblStartBuilder {
    fn default() -> (builder: Self)
        ensures
            builder@ == Seq::<Flow>::empty(),
    {
        Self { flow_builder: TangiblFlowBuilder::default() }
    }
}

impl TangiblStartBuilder {
    /// Puts a command at the end.
    pub fn with_command(&mut self, command: Command) -> (builder: &mut Self)
        ensures
            builder@ == old(self)@.push(Flow { kind: FlowKind::Command(command), next: None }),
            *final(self) == *final(builder),
    {
        self.flow_builder.with_command(command);
        self
    }

    /// Puts a branch at the end, with the chain that it takes when its test
    /// fails.
    pub fn with_conditional(
        &mut self,
        conditional_kind: ConditionalKind,
        alternate: Option<Flow>,
    ) -> (builder: &mut Self)
        ensures
            builder@ == old(self)@.push(
                Flow {
                    kind: FlowKind::Conditional(
                        Conditional { kind: conditional_kind, alternate: boxed(alternate) },
                    ),
                    next: None,
                },
            ),
            *final(self) == *final(builder),
    {
        let alternate = match alternate {
            Some(flow) => Some(Box::new(flow)),
            None => None,
        };
        self.flow_builder.with_conditional(Conditional { kind: conditional_kind, alternate });
        self
    }

    /// Puts a `while` loop at the end, with its condition and its body.
    pub fn with_boolean_method(
        &mut self,
        boolean_method_kind: BooleanMethodKind,
        condition: Option<Condition>,
        body: Option<Flow>,
    ) -> (builder: &mut Self)
        ensures
            builder@ == old(self)@.push(
                Flow {
                    kind: FlowKind::BooleanMethod(
                        BooleanMethod { kind: boolean_method_kind, condition, body: boxed(body) },
                    ),
                    next: None,
                },
            ),
            *final(self) == *final(builder),
    {
        self.flow_builder.with_boolean_method(boolean_method_kind, condition, body);
        self
    }

    /// Puts a `repeat` loop at the end, with its count and its body.
    pub fn with_integer_method(
        &mut self,
        integer_method_kind: IntegerMethodKind,
        value: Option<IntegerValue>,
        body: Option<Flow>,
    ) -> (builder: &mut Self)
        ensures
            builder@ == old(self)@.push(
                Flow {
                    kind: FlowKind::IntegerMethod(
                        IntegerMethod { kind: integer_method_kind, value, body: boxed(body) },
                    ),
                    next: None,
                },
            ),
            *final(self) == *final(builder),
    {
        self.flow_builder.with_integer_method(integer_method_kind, value, body);
        self
    }

    /// The program whose chain is made of the nodes given so far. The
    /// builder is left without nodes.
    pub fn build(&mut self) -> (start: Start)
        ensures
            start == (Start { next: chain_of(old(self)@) }),
            final(self)@ == Seq::<Flow>::empty(),
    {
        Start { next: self.flow_builder.build() }
    }
}

/// Builds a chain node by node: each `with_` method puts one more node at
/// the end of the chain.
#[derive(Debug)]
pub struct TangiblFlowBuilder {
    nodes: VecDeque<Flow>,
}

impl View for TangiblFlowBuilder {
    type V = Seq<Flow>;

    /// The nodes given so far, in the order in which they were given.
    closed spec fn view(&self) -> Seq<Flow> {
        self.nodes@
    }
}

impl Default for TangiblFlowBuilder {
    fn default() -> (builder: Self)
        ensures
            builder@ == Seq::<Flow>::empty(),
    {
        Self { nodes: VecDeque::new() }
    }
}

impl TangiblFlowBuilder {
    /// Puts a command at the end.
    pub fn with_command(&mut self, command: Command) -> (builder: &mut Self)
        ensures
            builder@ == old(self)@.push(Flow { kind: FlowKind::Command(command), next: None }),
            *final(self) == *final(builder),
    {
        self.with_flow(Flow::new(FlowKind::Command(command)));
        self
    }

    /// Puts a branch at the end, with the chain that it takes when its test
    /// fails.
    pub fn with_conditional(&mut self, conditional: Conditional) -> (builder: &mut Self)
        ensures
            builder@ == old(self)@.push(
                Flow { kind: FlowKind::Conditional(conditional), next: None },
            ),
            *final(self) == *final(builder),
    {
        self.with_flow(Flow::new(FlowKind::Conditional(conditional)));
        self
    }

    /// Puts a `while` loop at the end, with its condition and its body.
    pub fn with_boolean_method(
        &mut self,
        boolean_method_kind: BooleanMethodKind,
        condition: Option<Condition>,
        body: Option<Flow>,
    ) -> (builder: &mut Self)
        ensures
            builder@ == old(self)@.push(
                Flow {
                    kind: FlowKind::BooleanMethod(
                        BooleanMethod { kind: boolean_method_kind, condition, body: boxed(body) },
                    ),
                    next: None,
                },
            ),
            *final(self) == *final(builder),
    {
        let body = match body {
            Some(flow) => Some(Box::new(flow)),
            None => None,
        };
        self.with_flow(
            Flow::new(
                FlowKind::BooleanMethod(BooleanMethod { kind: boolean_method_kind, condition, body }),
            ),
        );
        self
    }

    /// Puts a `repeat` loop at the end, with its count and its body.
    pub fn with_integer_method(
        &mut self,
        integer_method_kind: IntegerMethodKind,
        value: Option<IntegerValue>,
        body: Option<Flow>,
    ) -> (builder: &mut Self)
        ensures
            builder@ == old(self)@.push(
                Flow {
                    kind: FlowKind::IntegerMethod(
                        IntegerMethod { kind: integer_method_kind, value, body: boxed(body) },
                    ),
                    next: None,
                },
            ),
            *final(self) == *final(builder),
    {
        let body = match body {
            Some(flow) => Some(Box::new(flow)),
            None => None,
        };
        self.with_flow(
            Flow::new(
                FlowKind::IntegerMethod(IntegerMethod { kind: integer_method_kind, value, body }),
            ),
        );
        self
    }

    /// The chain made of the nodes given so far. The builder is left
    /// without nodes.
    pub fn build(&mut self) -> (chain: Option<Flow>)
        ensures
            chain == chain_of(old(self)@),
            final(self)@ == Seq::<Flow>::empty(),
    {
        let mut current: Option<Flow> = None;
        loop
            invariant
                chain_onto(self.nodes@, current) == chain_of(old(self)@),
            ensures
                self.nodes@.len() == 0,
                current == chain_of(old(self)@),
            decreases self.nodes@.len(),
        {
            let ghost before = self.nodes@;
            match self.nodes.pop_back() {
                None => {
                    break ;
                },
                Some(mut node) => {
                    proof {
                        assert(before =~= self.nodes@.push(node));
                        lemma_chain_onto_last(self.nodes@, node, current);
                    }
                    match current {
                        None => {
                            current = Some(node);
                        },
                        Some(rest) => {
                            node.next = Some(Box::new(rest));
                            current = Some(node);
                        },
                    }
                },
            }
        }
        assert(self.nodes@ =~= Seq::<Flow>::empty());
        current
    }

    /// Puts a node at the end.
    fn with_flow(&mut self, flow: Flow) -> (builder: &mut Self)
        ensures
            builder@ == old(self)@.push(flow),
            *final(self) == *final(builder),
    {
        self.nodes.push_back(flow);
        self
    }
}

} // verus!
