//! A program tree as JSON: one object for each node, with its name and,
//! under their own keys, the chains and parameters that it has.

use vstd::prelude::*;
use crate::ast::{
    BooleanMethod, BooleanMethodKind, Command, Condition, Conditional, ConditionalKind, Flow,
    FlowKind, IntegerMethod, IntegerMethodKind, IntegerValue, Start,
};
use crate::json::{
    as_object_mut, insert_member, is_object, is_plain, json_of, json_text, new_members,
    no_members, object_value, text_value, to_text, with_member, Json,
};
use crate::visitor::Visitor;

verus! {

const NAME: &'static str = "name";

const NEXT: &'static str = "next";

const ALTERNATE: &'static str = "alternate";

const CONDITION: &'static str = "condition";

const BODY: &'static str = "body";

const VALUE: &'static str = "value";

/// The name under which a command is printed.
pub open spec fn command_name(command: Command) -> Seq<char> {
    match command {
        Command::Shoot => "shoot"@,
        Command::MoveForwards => "moveForwards"@,
        Command::MoveBackwards => "moveBackwards"@,
        Command::TurnLeft => "turnLeft"@,
        Command::TurnRight => "turnRight"@,
    }
}

/// The name under which a loop's condition is printed.
pub open spec fn condition_name(condition: Condition) -> Seq<char> {
    match condition {
        Condition::IsBlocked => "isBlocked"@,
        Condition::IsPathClear => "isPathClear"@,
    }
}

/// The text that stands for a loop's count.
pub open spec fn value_name(value: IntegerValue) -> Seq<char> {
    match value {
        IntegerValue::One => "1"@,
        IntegerValue::Two => "2"@,
        IntegerValue::Three => "3"@,
        IntegerValue::Four => "4"@,
        IntegerValue::Five => "5"@,
        IntegerValue::Six => "6"@,
        IntegerValue::Seven => "7"@,
        IntegerValue::Eight => "8"@,
        IntegerValue::Infinity => "Infinity"@,
    }
}

/// The members of a node that has a name and nothing else.
pub open spec fn named(name: Seq<char>) -> Map<Seq<char>, Json> {
    no_members().insert("name"@, Json::Text(name))
}

/// The object for a chain, if there is a chain.
pub open spec fn chain_json(chain: Option<Box<Flow>>) -> Option<Json>
    decreases chain,
{
    match chain {
        Some(flow) => Some(flow_json(*flow)),
        None => None,
    }
}

/// The members of a command: its name.
pub open spec fn command_members(command: Command) -> Map<Seq<char>, Json> {
    named(command_name(command))
}

/// The members of a branch: its name and, if there is one, the chain taken
/// when the test fails, under `alternate`.
pub open spec fn conditional_members(conditional: Conditional) -> Map<Seq<char>, Json>
    decreases conditional,
{
    with_member(named("blocked"@), "alternate"@, chain_json(conditional.alternate))
}

/// The members of a `while` loop: its name and, where they are there, its
/// condition under `condition` and its body under `body`.
pub open spec fn boolean_method_members(boolean_method: BooleanMethod) -> Map<Seq<char>, Json>
    decreases boolean_method,
{
    with_member(
        with_member(
            named("while"@),
            "condition"@,
            match boolean_method.condition {
                Some(condition) => Some(Json::Text(condition_name(condition))),
                None => None,
            },
        ),
        "body"@,
        chain_json(boolean_method.body),
    )
}

/// The members of a `repeat` loop: its name and, where they are there, its
/// count under `value` and its body under `body`.
pub open spec fn integer_method_members(integer_method: IntegerMethod) -> Map<Seq<char>, Json>
    decreases integer_method,
{
    with_member(
        with_member(
            named("repeat"@),
            "value"@,
            match integer_method.value {
                Some(value) => Some(Json::Text(value_name(value))),
                None => None,
            },
        ),
        "body"@,
        chain_json(integer_method.body),
    )
}

/// The members of a node of a chain, without what follows the node.
pub open spec fn kind_members(kind: FlowKind) -> Map<Seq<char>, Json>
    decreases kind,
{
    match kind {
        FlowKind::Command(command) => command_members(command),
        FlowKind::BooleanMethod(boolean_method) => boolean_method_members(boolean_method),
        FlowKind::IntegerMethod(integer_method) => integer_method_members(integer_method),
        FlowKind::Conditional(conditional) => conditional_members(conditional),
    }
}

/// The object for a node of a chain: the members of the node itself and,
/// if the chain goes on, the object for the rest of it under `next`.
pub open spec fn flow_json(flow: Flow) -> Json
    decreases flow,
{
    Json::Object(with_member(kind_members(flow.kind), "next"@, chain_json(flow.next)))
}

/// The object for a whole program: the name `start` and, if the program is
/// not empty, its chain under `next`.
pub open spec fn start_json(start: Start) -> Json {
    Json::Object(
        with_member(
            named("start"@),
            "next"@,
            match start.next {
                Some(flow) => Some(flow_json(flow)),
                None => None,
            },
        ),
    )
}

/// The object for a chain is made of strings and objects alone.
pub proof fn lemma_flow_json_is_plain(flow: Flow)
    ensures
        is_plain(flow_json(flow)),
    decreases flow,
{
    let own = kind_members(flow.kind);
    assert forall|key: Seq<char>| own.dom().contains(key) implies is_plain(#[trigger] own[key]) by {
        match flow.kind {
            FlowKind::Command(command) => {},
            FlowKind::BooleanMethod(boolean_method) => {
                if let Some(body) = boolean_method.body {
                    lemma_flow_json_is_plain(*body);
                }
            },
            FlowKind::IntegerMethod(integer_method) => {
                if let Some(body) = integer_method.body {
                    lemma_flow_json_is_plain(*body);
                }
            },
            FlowKind::Conditional(conditional) => {
                if let Some(alternate) = conditional.alternate {
                    lemma_flow_json_is_plain(*alternate);
                }
            },
        }
    }
    if let Some(rest) = flow.next {
        lemma_flow_json_is_plain(*rest);
    }
}

/// The object for a program is made of strings and objects alone.
pub proof fn lemma_start_json_is_plain(start: Start)
    ensures
        is_plain(start_json(start)),
{
    if let Some(flow) = start.next {
        lemma_flow_json_is_plain(flow);
    }
    let members = start_json(start)->Object_0;
    assert forall|key: Seq<char>| members.dom().contains(key) implies is_plain(
        #[trigger] members[key],
    ) by {}
}

/// Prints a program tree as JSON, for a reader in another language or
/// another process.
pub struct JsonPrinter {}

impl JsonPrinter {
    /// A printer.
    pub fn new() -> (printer: Self) {
        Self {  }
    }

    /// The compact JSON text of a program: that of the object which
    /// `start_json` describes.
    pub fn print(&mut self, start: &Start) -> (text: String)
        ensures
            text@ == json_text(start_json(*start)),
    {
        let node = self.visit_start(start);
        proof {
            lemma_start_json_is_plain(*start);
        }
        to_text(&node)
    }
}

impl Visitor for JsonPrinter {
    type Result = serde_json::Value;

    fn visit_start(&mut self, start: &Start) -> (node: serde_json::Value)
        ensures
            json_of(node) == start_json(*start),
    {
        let mut map = new_members();
        insert_member(&mut map, NAME.to_owned(), text_value("start".to_owned()));

        if let Some(flow) = &start.next {
            let next = self.visit_flow(flow);
            if is_object(&next) {
                insert_member(&mut map, NEXT.to_owned(), next);
            }
        }

        object_value(map)
    }

    fn visit_command(&mut self, command: &Command) -> (node: serde_json::Value)
        ensures
            json_of(node) == Json::Object(command_members(*command)),
    {
        let mut map = new_members();
        let name = match command {
            Command::Shoot => "shoot",
            Command::MoveForwards => "moveForwards",
            Command::MoveBackwards => "moveBackwards",
            Command::TurnLeft => "turnLeft",
            Command::TurnRight => "turnRight",
        };
        insert_member(&mut map, NAME.to_owned(), text_value(name.to_owned()));
        object_value(map)
    }

    fn visit_conditional(&mut self, conditional: &Conditional) -> (node: serde_json::Value)
        ensures
            json_of(node) == Json::Object(conditional_members(*conditional)),
        decreases *conditional,
    {
        let mut map = new_members();
        let name = match conditional.kind {
            ConditionalKind::Blocked => "blocked",
        };
        insert_member(&mut map, NAME.to_owned(), text_value(name.to_owned()));
        if let Some(alternate_flow) = &conditional.alternate {
            let alternate = self.visit_flow(alternate_flow);
            if is_object(&alternate) {
                insert_member(&mut map, ALTERNATE.to_owned(), alternate);
            }
        }
        object_value(map)
    }

    fn visit_boolean_method(&mut self, boolean_method: &BooleanMethod) -> (node: serde_json::Value)
        ensures
            json_of(node) == Json::Object(boolean_method_members(*boolean_method)),
        decreases *boolean_method,
    {
        let mut map = new_members();
        let name = match boolean_method.kind {
            BooleanMethodKind::While => "while",
        };
        insert_member(&mut map, NAME.to_owned(), text_value(name.to_owned()));
        if let Some(condition) = &boolean_method.condition {
            let condition = match condition {
                Condition::IsBlocked => "isBlocked",
                Condition::IsPathClear => "isPathClear",
            };
            insert_member(&mut map, CONDITION.to_owned(), text_value(condition.to_owned()));
        }
        if let Some(body_flow) = &boolean_method.body {
            let body = self.visit_flow(body_flow);
            if is_object(&body) {
                insert_member(&mut map, BODY.to_owned(), body);
            }
        }
        object_value(map)
    }

    fn visit_integer_method(&mut self, integer_method: &IntegerMethod) -> (node: serde_json::Value)
        ensures
            json_of(node) == Json::Object(integer_method_members(*integer_method)),
        decreases *integer_method,
    {
        let mut map = new_members();
        let name = match integer_method.kind {
            IntegerMethodKind::Repeat => "repeat",
        };
        insert_member(&mut map, NAME.to_owned(), text_value(name.to_owned()));
        if let Some(value) = &integer_method.value {
            let value = match value {
                IntegerValue::One => "1",
                IntegerValue::Two => "2",
                IntegerValue::Three => "3",
                IntegerValue::Four => "4",
                IntegerValue::Five => "5",
                IntegerValue::Six => "6",
                IntegerValue::Seven => "7",
                IntegerValue::Eight => "8",
                IntegerValue::Infinity => "Infinity",
            };
            insert_member(&mut map, VALUE.to_owned(), text_value(value.to_owned()));
        }
        if let Some(body_flow) = &integer_method.body {
            let body = self.visit_flow(body_flow);
            if is_object(&body) {
                insert_member(&mut map, BODY.to_owned(), body);
            }
        }
        object_value(map)
    }

    fn visit_flow(&mut self, flow: &Flow) -> (node: serde_json::Value)
        ensures
            json_of(node) == flow_json(*flow),
        decreases *flow,
    {
        let mut node = match &flow.kind {
            FlowKind::Command(command) => self.visit_command(command),
            FlowKind::BooleanMethod(boolean_method) => self.visit_boolean_method(boolean_method),
            FlowKind::IntegerMethod(integer_method) => self.visit_integer_method(integer_method),
            FlowKind::Conditional(conditional) => self.visit_conditional(conditional),
        };
        if let Some(next_flow) = &flow.next {
            if let Some(node_mut) = as_object_mut(&mut node) {
                let next = self.visit_flow(next_flow);
                if is_object(&next) {
                    insert_member(node_mut, NEXT.to_owned(), next);
                }
            }
        }
        node
    }
}

} // verus!
