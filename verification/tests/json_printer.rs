use serde_json::Value;
use tangibl::ast::{
    BooleanMethod, BooleanMethodKind, Command, Condition, Conditional, ConditionalKind, Flow,
    FlowKind, IntegerMethod, IntegerMethodKind, IntegerValue, Start,
};
use tangibl::{flow, start, JsonPrinter, Visitor};

fn object(members: &[(&str, Value)]) -> Value {
    let mut map = serde_json::Map::new();
    for (key, value) in members {
        map.insert(key.to_string(), value.clone());
    }
    Value::Object(map)
}

fn text(text: &str) -> Value {
    Value::String(text.to_string())
}

#[test]
fn it_can_print_a_complex_tree() {
    let ast = start()
        .with_command(Command::Shoot)
        .with_conditional(
            ConditionalKind::Blocked,
            flow().with_command(Command::TurnLeft).build(),
        )
        .with_command(Command::MoveBackwards)
        .with_boolean_method(
            BooleanMethodKind::While,
            Some(Condition::IsBlocked),
            flow().with_command(Command::TurnRight).build(),
        )
        .with_command(Command::MoveForwards)
        .with_integer_method(
            IntegerMethodKind::Repeat,
            Some(IntegerValue::Three),
            flow().with_command(Command::TurnLeft).build(),
        )
        .with_command(Command::MoveForwards)
        .build();
    let mut json_printer = JsonPrinter::new();

    let expected = r#"{"name":"start","next":{"name":"shoot","next":{"alternate":{"name":"turnLeft"},"name":"blocked","next":{"name":"moveBackwards","next":{"body":{"name":"turnRight"},"condition":"isBlocked","name":"while","next":{"name":"moveForwards","next":{"body":{"name":"turnLeft"},"name":"repeat","next":{"name":"moveForwards"},"value":"3"}}}}}}}"#;
    assert_eq!(expected, json_printer.print(&ast));
}

#[test]
fn an_empty_program_prints_its_name_alone() {
    let mut json_printer = JsonPrinter::new();
    assert_eq!(r#"{"name":"start"}"#, json_printer.print(&Start { next: None }));
}

#[test]
fn every_command_prints_its_name() {
    let names = [
        (Command::Shoot, "shoot"),
        (Command::MoveForwards, "moveForwards"),
        (Command::MoveBackwards, "moveBackwards"),
        (Command::TurnLeft, "turnLeft"),
        (Command::TurnRight, "turnRight"),
    ];
    for (command, name) in names {
        let ast = start().with_command(command).build();
        assert_eq!(
            format!(r#"{{"name":"start","next":{{"name":"{}"}}}}"#, name),
            JsonPrinter::new().print(&ast)
        );
    }
}

#[test]
fn a_chain_is_printed_link_by_link_under_next() {
    let ast = start()
        .with_command(Command::TurnLeft)
        .with_command(Command::TurnRight)
        .with_command(Command::Shoot)
        .build();
    assert_eq!(
        r#"{"name":"start","next":{"name":"turnLeft","next":{"name":"turnRight","next":{"name":"shoot"}}}}"#,
        JsonPrinter::new().print(&ast)
    );
}

#[test]
fn every_count_prints_its_text() {
    let texts = [
        (IntegerValue::One, "1"),
        (IntegerValue::Two, "2"),
        (IntegerValue::Three, "3"),
        (IntegerValue::Four, "4"),
        (IntegerValue::Five, "5"),
        (IntegerValue::Six, "6"),
        (IntegerValue::Seven, "7"),
        (IntegerValue::Eight, "8"),
        (IntegerValue::Infinity, "Infinity"),
    ];
    for (value, text) in texts {
        let ast = start()
            .with_integer_method(IntegerMethodKind::Repeat, Some(value), None)
            .build();
        assert_eq!(
            format!(
                r#"{{"name":"start","next":{{"name":"repeat","value":"{}"}}}}"#,
                text
            ),
            JsonPrinter::new().print(&ast)
        );
    }
}

#[test]
fn every_condition_prints_its_name() {
    let names = [
        (Condition::IsBlocked, "isBlocked"),
        (Condition::IsPathClear, "isPathClear"),
    ];
    for (condition, name) in names {
        let ast = start()
            .with_boolean_method(BooleanMethodKind::While, Some(condition), None)
            .build();
        assert_eq!(
            format!(
                r#"{{"name":"start","next":{{"condition":"{}","name":"while"}}}}"#,
                name
            ),
            JsonPrinter::new().print(&ast)
        );
    }
}

#[test]
fn what_a_node_lacks_is_left_out() {
    let ast = start()
        .with_boolean_method(BooleanMethodKind::While, None, None)
        .with_integer_method(IntegerMethodKind::Repeat, None, None)
        .with_conditional(ConditionalKind::Blocked, None)
        .build();
    assert_eq!(
        r#"{"name":"start","next":{"name":"while","next":{"name":"repeat","next":{"name":"blocked"}}}}"#,
        JsonPrinter::new().print(&ast)
    );
}

#[test]
fn bodies_and_alternates_are_printed_under_their_own_keys() {
    let ast = start()
        .with_conditional(
            ConditionalKind::Blocked,
            flow()
                .with_command(Command::TurnLeft)
                .with_command(Command::Shoot)
                .build(),
        )
        .with_integer_method(
            IntegerMethodKind::Repeat,
            None,
            flow()
                .with_boolean_method(
                    BooleanMethodKind::While,
                    Some(Condition::IsPathClear),
                    flow().with_command(Command::MoveForwards).build(),
                )
                .build(),
        )
        .build();
    assert_eq!(
        r#"{"name":"start","next":{"alternate":{"name":"turnLeft","next":{"name":"shoot"}},"name":"blocked","next":{"body":{"body":{"name":"moveForwards"},"condition":"isPathClear","name":"while"},"name":"repeat"}}}"#,
        JsonPrinter::new().print(&ast)
    );
}

#[test]
fn visiting_a_command_gives_an_object_with_its_name() {
    assert_eq!(
        object(&[("name", text("turnRight"))]),
        JsonPrinter::new().visit_command(&Command::TurnRight)
    );
}

#[test]
fn visiting_a_branch_gives_its_name_and_alternate() {
    let conditional = Conditional {
        kind: ConditionalKind::Blocked,
        alternate: Some(Box::new(Flow::new(FlowKind::Command(Command::Shoot)))),
    };
    assert_eq!(
        object(&[
            ("name", text("blocked")),
            ("alternate", object(&[("name", text("shoot"))])),
        ]),
        JsonPrinter::new().visit_conditional(&conditional)
    );
    let conditional = Conditional {
        kind: ConditionalKind::Blocked,
        alternate: None,
    };
    assert_eq!(
        object(&[("name", text("blocked"))]),
        JsonPrinter::new().visit_conditional(&conditional)
    );
}

#[test]
fn visiting_a_while_loop_gives_its_name_condition_and_body() {
    let boolean_method = BooleanMethod {
        kind: BooleanMethodKind::While,
        body: Some(Box::new(Flow::new(FlowKind::Command(Command::MoveForwards)))),
        condition: Some(Condition::IsPathClear),
    };
    assert_eq!(
        object(&[
            ("name", text("while")),
            ("condition", text("isPathClear")),
            ("body", object(&[("name", text("moveForwards"))])),
        ]),
        JsonPrinter::new().visit_boolean_method(&boolean_method)
    );
}

#[test]
fn visiting_a_repeat_loop_gives_its_name_value_and_body() {
    let integer_method = IntegerMethod {
        kind: IntegerMethodKind::Repeat,
        body: Some(Box::new(Flow::new(FlowKind::Command(Command::MoveBackwards)))),
        value: Some(IntegerValue::Four),
    };
    assert_eq!(
        object(&[
            ("name", text("repeat")),
            ("value", text("4")),
            ("body", object(&[("name", text("moveBackwards"))])),
        ]),
        JsonPrinter::new().visit_integer_method(&integer_method)
    );
}

#[test]
fn visiting_a_node_adds_what_follows_it_under_next() {
    let chain = flow()
        .with_integer_method(IntegerMethodKind::Repeat, Some(IntegerValue::One), None)
        .with_command(Command::Shoot)
        .build()
        .unwrap();
    assert_eq!(
        object(&[
            ("name", text("repeat")),
            ("value", text("1")),
            ("next", object(&[("name", text("shoot"))])),
        ]),
        JsonPrinter::new().visit_flow(&chain)
    );
}

#[test]
fn visiting_a_program_gives_the_start_and_its_chain() {
    let ast = start().with_command(Command::TurnLeft).build();
    let mut printer = JsonPrinter::new();
    let node = printer.visit_start(&ast);
    assert_eq!(
        object(&[
            ("name", text("start")),
            ("next", object(&[("name", text("turnLeft"))])),
        ]),
        node
    );
    assert_eq!(node.to_string(), printer.print(&ast));
    assert_eq!(
        object(&[("name", text("start"))]),
        printer.visit_start(&Start::default())
    );
}
