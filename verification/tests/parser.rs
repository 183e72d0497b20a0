//! Batches as a scanner reports them, parsed into programs. The library
//! reads a batch as tokens and links; the functions at the top of this file
//! measure the scanner's codes and say which token lies where.

use std::f64::consts::PI;
use tangibl::ast::{
    BooleanMethod, BooleanMethodKind, Command, Condition, Conditional, ConditionalKind, Flow,
    FlowKind, IntegerMethod, IntegerMethodKind, IntegerValue, Start,
};
use tangibl::parser::{Link, Parser, Slot};
use tangibl::tokens::recognised;
use tangibl::{Token, TokenCode};
use topcodes::TopCode;

const TOKEN_SIZE: f64 = 100.0;
const TOPCODE_RADIUS: f64 = 24.0;
const TOPCODE_DIAMETER: f64 = TOPCODE_RADIUS * 2.0;
const TOPCODE_CENTER_X: f64 = 50.0;
const TOPCODE_CENTER_Y: f64 = 38.0;
const DISPLACEMENT_SQUARED_TOLERANCE: f64 = (TOPCODE_RADIUS * 2.5) * (TOPCODE_RADIUS * 2.5);
const ANGLE_TOLERANCE: f64 = PI / 5.0;
const TWO_PI: f64 = PI * 2.0;
const CONDITIONAL_INTERSECTION: f64 = 65.0;

const SLOTS: [Slot; 5] = [
    Slot::Next,
    Slot::Body,
    Slot::Parameter,
    Slot::TruePath,
    Slot::FalsePath,
];

fn true_hypotenuse() -> f64 {
    (TOPCODE_CENTER_X.powi(2) + TOPCODE_CENTER_Y.powi(2)).sqrt()
}

fn true_token_x() -> f64 {
    true_hypotenuse() * ((PI / 4.0) - (TOPCODE_CENTER_Y / true_hypotenuse()).asin()).cos()
        + CONDITIONAL_INTERSECTION
        - TOPCODE_CENTER_X
}

fn true_token_y() -> f64 {
    true_hypotenuse() * ((PI / 4.0) - (TOPCODE_CENTER_Y / true_hypotenuse()).asin()).sin()
        + TOPCODE_CENTER_Y
}

fn false_hypotenuse() -> f64 {
    (TOPCODE_CENTER_X.powi(2) + (TOKEN_SIZE - TOPCODE_CENTER_Y).powi(2)).sqrt()
}

fn false_token_x() -> f64 {
    false_hypotenuse() * ((PI / 4.0) - (TOPCODE_CENTER_X / false_hypotenuse()).asin()).cos()
        + CONDITIONAL_INTERSECTION
        - TOPCODE_CENTER_X
}

fn false_token_y() -> f64 {
    false_hypotenuse() * ((PI / 4.0) - (TOPCODE_CENTER_X / false_hypotenuse()).asin()).sin()
        - (TOKEN_SIZE - TOPCODE_CENTER_Y)
}

#[derive(Clone, Copy, Debug, PartialEq)]
struct Marker {
    code: TokenCode,
    diameter: f64,
    orientation: f64,
    x: f64,
    y: f64,
}

impl Marker {
    fn ratio(&self, diameter: f64) -> f64 {
        self.diameter / diameter
    }
}

fn get_angle(mut angle: f64) -> f64 {
    while angle >= TWO_PI {
        angle -= TWO_PI;
    }
    while angle < 0.0 {
        angle += TWO_PI;
    }
    angle
}

fn measure(topcodes: &Vec<TopCode>) -> Vec<Marker> {
    let numbers: Vec<Option<u32>> = topcodes.iter().map(|topcode| topcode.code).collect();
    let kept = recognised(&numbers);
    let mut diameter_sum = 0.0;
    let mut markers = Vec::with_capacity(kept.len());
    for (at, code) in &kept {
        let topcode = &topcodes[*at];
        diameter_sum += topcode.unit * 8.0;
        markers.push(Marker {
            code: *code,
            diameter: 0.0,
            orientation: get_angle(-topcode.orientation),
            x: topcode.x,
            y: -topcode.y,
        });
    }
    let diameter_avg = diameter_sum / markers.len() as f64;
    for marker in &mut markers {
        marker.diameter = diameter_avg;
    }
    markers
}

fn ahead_of(x: f64, y: f64, angle: f64, ratio: f64) -> (f64, f64, f64) {
    let distance = ratio * TOKEN_SIZE;
    (x + (distance * angle.cos()), y + (distance * angle.sin()), angle)
}

fn expected(marker: &Marker, slot: Slot) -> (f64, f64, f64) {
    let ratio = marker.ratio(TOPCODE_DIAMETER);
    let cos_angle = marker.orientation.cos();
    let sin_angle = marker.orientation.sin();
    match slot {
        Slot::Next => ahead_of(marker.x, marker.y, marker.orientation, ratio),
        Slot::Parameter => {
            let distance = ratio * -TOKEN_SIZE;
            (
                marker.x + distance * -sin_angle,
                marker.y + distance * cos_angle,
                marker.orientation,
            )
        }
        Slot::Body => {
            let x_delta = -(TOPCODE_CENTER_X - TOPCODE_CENTER_Y);
            let y_delta = TOKEN_SIZE + x_delta;
            (
                marker.x + (x_delta * cos_angle - y_delta * sin_angle) * ratio,
                marker.y + (x_delta * sin_angle + y_delta * cos_angle) * ratio,
                marker.orientation + PI / 2.0,
            )
        }
        Slot::TruePath => {
            let x = marker.x + (true_token_x() * cos_angle - true_token_y() * sin_angle) * ratio;
            let y = marker.y + (true_token_x() * sin_angle + true_token_y() * cos_angle) * ratio;
            ahead_of(x, y, marker.orientation + PI / 4.0, ratio)
        }
        Slot::FalsePath => {
            let x = marker.x + (false_token_x() * cos_angle - false_token_y() * sin_angle) * ratio;
            let y = marker.y + (false_token_x() * sin_angle + false_token_y() * cos_angle) * ratio;
            ahead_of(x, y, marker.orientation - PI / 4.0, ratio)
        }
    }
}

fn within_threshold(candidate: &Marker, x: f64, y: f64, angle: f64) -> bool {
    let delta_displacement_squared = (candidate.x - x).powi(2) + (candidate.y - y).powi(2);
    let mut delta_angle = (candidate.orientation - angle) % TWO_PI;
    if delta_angle < 0.0 {
        delta_angle += TWO_PI;
    }
    delta_angle = f64::min(delta_angle, TWO_PI - delta_angle);
    delta_displacement_squared <= DISPLACEMENT_SQUARED_TOLERANCE && delta_angle <= ANGLE_TOLERANCE
}

fn same_place(one: &Marker, other: &Marker) -> bool {
    one.diameter == other.diameter
        && one.orientation == other.orientation
        && one.x == other.x
        && one.y == other.y
}

fn parser_of(markers: &Vec<Marker>) -> Parser {
    let mut tokens = Vec::with_capacity(markers.len());
    let mut links = Vec::new();
    for (at, marker) in markers.iter().enumerate() {
        let place = markers
            .iter()
            .position(|earlier| same_place(earlier, marker))
            .unwrap_or(at);
        tokens.push(Token::new(marker.code, place));
        for slot in SLOTS {
            let (x, y, angle) = expected(marker, slot);
            for (to, candidate) in markers.iter().enumerate() {
                if within_threshold(candidate, x, y, angle) {
                    links.push(Link::new(at, slot, to));
                }
            }
        }
    }
    Parser::new(tokens, links)
}

fn parser_for(topcodes: &Vec<TopCode>) -> Parser {
    parser_of(&measure(topcodes))
}

fn marker(code: TokenCode, orientation: f64, x: f64, y: f64) -> Marker {
    Marker {
        code,
        diameter: TOPCODE_DIAMETER,
        orientation,
        x,
        y,
    }
}

fn command(command: Command, next: Option<Flow>) -> Flow {
    Flow {
        kind: FlowKind::Command(command),
        next: next.map(Box::new),
    }
}

#[test]
fn it_can_parse_a_start_token() {
    let parser = parser_for(&vec![TopCode::new(TokenCode::Start.value())]);
    let result = parser.parse();
    assert_eq!(Some(Start { next: None }), result);
}

#[test]
fn it_can_parse_a_trivial_flow() {
    let parser = parser_for(&vec![
        TopCode::mock(TokenCode::Start.value(), 6.0, 0.0, 0.0, 0.0),
        TopCode::mock(TokenCode::Shoot.value(), 6.0, 0.0, 100.0, 0.0),
    ]);
    let result = parser.parse();
    assert_eq!(
        Some(Start {
            next: Some(Flow {
                next: None,
                kind: FlowKind::Command(Command::Shoot)
            })
        }),
        result
    );
}

#[test]
fn it_can_parse_a_complex_tree() {
    // This is essentially a fuzz test as there are a few missing unit tests above. This covers
    // quite a complex (although semantically nonsense) Tangibl AST.
    let topcodes = vec![
        TopCode::mock(61, 12.375, -5.244, 237.5, 165.166),
        TopCode::mock(79, 14.306, -5.244, 336.333, 363.5),
        TopCode::mock(31, 12.15, -5.244, 431.0, 562.0),
        TopCode::mock(47, 12.262, -2.827, 937.833, 377.5),
        TopCode::mock(91, 12.943, -1.232, 1140.5, 436.0),
        TopCode::mock(115, 14.175, -1.280, 1345.5, 519.5),
        TopCode::mock(59, 12.706, -1.280, 1052.5, 641.666),
        TopCode::mock(55, 13.912, -5.920, 801.5, 754.833),
        TopCode::mock(91, 13.912, -5.969, 999.0, 838.0),
        TopCode::mock(167, 12.468, -4.422, 134.5, 912.833),
        TopCode::mock(87, 12.15, -5.969, 1201.666, 916.0),
        TopCode::mock(155, 13.125, -4.422, 336.833, 979.5),
        TopCode::mock(47, 12.35, -5.969, 538.0, 1031.5),
        TopCode::mock(117, 13.25, -5.969, 917.666, 1035.5),
        TopCode::mock(87, 11.812, -4.47, 275.33, 1177.33),
    ];

    let parser = parser_for(&topcodes);

    assert_eq!(
        Some(Start {
            next: Some(Flow {
                kind: FlowKind::Command(Command::TurnLeft),
                next: Some(Box::new(Flow {
                    kind: FlowKind::Conditional(Conditional {
                        kind: ConditionalKind::Blocked,
                        alternate: Some(Box::new(Flow {
                            kind: FlowKind::BooleanMethod(BooleanMethod {
                                kind: BooleanMethodKind::While,
                                condition: Some(Condition::IsPathClear),
                                body: Some(Box::new(Flow {
                                    kind: FlowKind::Command(Command::MoveBackwards),
                                    next: None
                                }))
                            }),
                            next: Some(Box::new(Flow {
                                kind: FlowKind::Command(Command::TurnRight),
                                next: None,
                            }))
                        }))
                    }),
                    next: Some(Box::new(Flow {
                        kind: FlowKind::Command(Command::MoveForwards),
                        next: Some(Box::new(Flow {
                            kind: FlowKind::IntegerMethod(IntegerMethod {
                                kind: IntegerMethodKind::Repeat,
                                body: Some(Box::new(Flow {
                                    kind: FlowKind::Command(Command::Shoot),
                                    next: Some(Box::new(Flow {
                                        kind: FlowKind::IntegerMethod(IntegerMethod {
                                            kind: IntegerMethodKind::Repeat,
                                            body: Some(Box::new(Flow {
                                                kind: FlowKind::Command(Command::MoveBackwards),
                                                next: None,
                                            })),
                                            value: Some(IntegerValue::Five)
                                        }),
                                        next: None
                                    })),
                                })),
                                value: Some(IntegerValue::Six)
                            }),
                            next: Some(Box::new(Flow {
                                kind: FlowKind::Command(Command::TurnRight),
                                next: None
                            }))
                        }))
                    }))
                }))
            })
        }),
        parser.parse()
    );
}

#[test]
fn an_empty_batch_holds_no_program() {
    assert_eq!(None, parser_for(&vec![]).parse());
    assert_eq!(None, tangibl::parse(vec![], vec![]));
}

#[test]
fn a_batch_without_a_start_token_holds_no_program() {
    let parser = parser_for(&vec![
        TopCode::mock(TokenCode::Shoot.value(), 6.0, 0.0, 0.0, 0.0),
        TopCode::mock(TokenCode::TurnLeft.value(), 6.0, 0.0, 100.0, 0.0),
    ]);
    assert_eq!(None, parser.parse());
}

#[test]
fn unknown_codes_are_left_out_of_the_batch() {
    let parser = parser_for(&vec![
        TopCode::mock(TokenCode::Start.value(), 6.0, 0.0, 0.0, 0.0),
        TopCode::mock(1234, 6.0, 0.0, 100.0, 0.0),
        TopCode::default(),
        TopCode::mock(TokenCode::Shoot.value(), 6.0, 0.0, 100.0, 0.0),
    ]);
    assert_eq!(
        Some(Start {
            next: Some(command(Command::Shoot, None))
        }),
        parser.parse()
    );
}

#[test]
fn a_code_with_the_number_of_the_undefined_token_is_left_out_of_the_batch() {
    let topcodes = vec![
        TopCode::mock(61, 6.0, 0.0, 0.0, 0.0),
        TopCode::mock(0, 60.0, 0.0, 500.0, 500.0),
        TopCode::mock(59, 6.0, 0.0, 100.0, 0.0),
    ];
    let markers = measure(&topcodes);
    assert_eq!(2, markers.len());
    for marker in &markers {
        assert_ne!(TokenCode::Undefined, marker.code);
        assert_eq!(48.0, marker.diameter);
    }
    assert_eq!(
        Some(Start {
            next: Some(command(Command::Shoot, None))
        }),
        parser_for(&topcodes).parse()
    );
}

#[test]
fn angles_are_brought_into_one_turn() {
    assert_eq!(0.0, get_angle(TWO_PI));
    assert_eq!(0.0, get_angle(0.0));
    assert_eq!(PI, get_angle(-PI));
    assert_eq!(PI, get_angle(PI + TWO_PI));
    let markers = measure(&vec![TopCode::mock(61, 6.0, -TWO_PI, 0.0, 0.0)]);
    assert_eq!(0.0, markers[0].orientation);
}

#[test]
fn a_command_one_token_ahead_of_the_start_follows_it() {
    let parser = parser_of(&vec![
        marker(TokenCode::Start, 0.0, 0.0, 0.0),
        marker(TokenCode::MoveForwards, 0.0, TOKEN_SIZE, 0.0),
    ]);
    assert_eq!(
        Some(Start {
            next: Some(command(Command::MoveForwards, None))
        }),
        parser.parse()
    );
}

#[test]
fn three_tokens_in_a_row_make_a_chain_of_two_commands() {
    let parser = parser_of(&vec![
        marker(TokenCode::Start, 0.0, 0.0, 0.0),
        marker(TokenCode::TurnLeft, 0.0, 100.0, 0.0),
        marker(TokenCode::Shoot, 0.0, 200.0, 0.0),
    ]);
    assert_eq!(
        Some(Start {
            next: Some(command(
                Command::TurnLeft,
                Some(command(Command::Shoot, None))
            ))
        }),
        parser.parse()
    );
}

#[test]
fn the_order_of_the_batch_does_not_decide_where_a_chain_goes() {
    let parser = parser_of(&vec![
        marker(TokenCode::Shoot, 0.0, 200.0, 0.0),
        marker(TokenCode::TurnLeft, 0.0, 100.0, 0.0),
        marker(TokenCode::Start, 0.0, 0.0, 0.0),
    ]);
    assert_eq!(
        Some(Start {
            next: Some(command(
                Command::TurnLeft,
                Some(command(Command::Shoot, None))
            ))
        }),
        parser.parse()
    );
}

#[test]
fn a_token_at_the_edge_of_the_displacement_tolerance_is_taken() {
    let reach = TOPCODE_RADIUS * 2.5;
    let parser = parser_of(&vec![
        marker(TokenCode::Start, 0.0, 0.0, 0.0),
        marker(TokenCode::Shoot, 0.0, TOKEN_SIZE + reach, 0.0),
    ]);
    assert_eq!(
        Some(Start {
            next: Some(command(Command::Shoot, None))
        }),
        parser.parse()
    );
    let parser = parser_of(&vec![
        marker(TokenCode::Start, 0.0, 0.0, 0.0),
        marker(TokenCode::Shoot, 0.0, TOKEN_SIZE, reach),
    ]);
    assert_eq!(
        Some(Start {
            next: Some(command(Command::Shoot, None))
        }),
        parser.parse()
    );
}

#[test]
fn a_token_one_unit_past_the_displacement_tolerance_is_not_taken() {
    let reach = TOPCODE_RADIUS * 2.5;
    let parser = parser_of(&vec![
        marker(TokenCode::Start, 0.0, 0.0, 0.0),
        marker(TokenCode::Shoot, 0.0, TOKEN_SIZE + reach + 1.0, 0.0),
    ]);
    assert_eq!(Some(Start { next: None }), parser.parse());
    let parser = parser_of(&vec![
        marker(TokenCode::Start, 0.0, 0.0, 0.0),
        marker(TokenCode::Shoot, 0.0, TOKEN_SIZE, -(reach + 1.0)),
    ]);
    assert_eq!(Some(Start { next: None }), parser.parse());
}

#[test]
fn a_token_turned_by_the_angle_tolerance_is_taken() {
    let parser = parser_of(&vec![
        marker(TokenCode::Start, 0.0, 0.0, 0.0),
        marker(TokenCode::Shoot, ANGLE_TOLERANCE, TOKEN_SIZE, 0.0),
    ]);
    assert_eq!(
        Some(Start {
            next: Some(command(Command::Shoot, None))
        }),
        parser.parse()
    );
}

#[test]
fn a_token_turned_past_the_angle_tolerance_is_not_taken() {
    let parser = parser_of(&vec![
        marker(TokenCode::Start, 0.0, 0.0, 0.0),
        marker(TokenCode::Shoot, ANGLE_TOLERANCE + 0.01, TOKEN_SIZE, 0.0),
    ]);
    assert_eq!(Some(Start { next: None }), parser.parse());
    let parser = parser_of(&vec![
        marker(TokenCode::Start, 0.0, 0.0, 0.0),
        marker(TokenCode::Shoot, TWO_PI - ANGLE_TOLERANCE - 0.01, TOKEN_SIZE, 0.0),
    ]);
    assert_eq!(Some(Start { next: None }), parser.parse());
}

#[test]
fn parsing_the_same_batch_again_gives_the_same_program() {
    let topcodes = vec![
        TopCode::mock(61, 12.375, -5.244, 237.5, 165.166),
        TopCode::mock(79, 14.306, -5.244, 336.333, 363.5),
        TopCode::mock(31, 12.15, -5.244, 431.0, 562.0),
        TopCode::mock(55, 13.912, -5.920, 801.5, 754.833),
        TopCode::mock(155, 13.125, -4.422, 336.833, 979.5),
    ];
    let parser = parser_for(&topcodes);
    let first = parser.parse();
    assert!(first.is_some());
    assert_eq!(first, parser.parse());
    assert_eq!(first, parser_for(&topcodes).parse());
}

/// A walk over the measurements themselves, token by token, without links:
/// what lies where is measured anew at every step. It gives up on a batch
/// whose chains run deeper than the batch is long.
struct Walk<'a> {
    markers: &'a Vec<Marker>,
}

impl<'a> Walk<'a> {
    fn is_flow(marker: &Marker) -> bool {
        Token::new(marker.code, 0).is_flow()
    }

    fn find(
        &self,
        asking: &Marker,
        parent: Option<&Marker>,
        pose: (f64, f64, f64),
        wanted: fn(&Marker) -> bool,
    ) -> Option<usize> {
        for (at, candidate) in self.markers.iter().enumerate() {
            if candidate == asking || !wanted(candidate) {
                continue;
            }
            if let Some(parent) = parent {
                if parent == candidate {
                    continue;
                }
            }
            if within_threshold(candidate, pose.0, pose.1, pose.2) {
                return Some(at);
            }
        }
        None
    }

    fn ahead(&self, asking: &Marker) -> Option<usize> {
        self.find(asking, None, expected(asking, Slot::Next), Self::is_flow)
    }

    fn beyond(&self, branch: &Marker, slot: Slot, turn: f64, x: f64, y: f64) -> Option<usize> {
        let ratio = branch.ratio(TOPCODE_DIAMETER);
        let cos_angle = branch.orientation.cos();
        let sin_angle = branch.orientation.sin();
        let pseudo = Marker {
            code: TokenCode::Undefined,
            diameter: branch.diameter,
            orientation: branch.orientation + turn,
            x: branch.x + (x * cos_angle - y * sin_angle) * ratio,
            y: branch.y + (x * sin_angle + y * cos_angle) * ratio,
        };
        let pose = expected(&pseudo, Slot::Next);
        assert_eq!(pose, expected(branch, slot));
        self.find(&pseudo, Some(branch), pose, Self::is_flow)
    }

    fn chain(&self, found: Option<usize>, depth: usize) -> Result<Option<Flow>, ()> {
        let at = match found {
            Some(at) => at,
            None => return Ok(None),
        };
        if depth > self.markers.len() {
            return Err(());
        }
        let marker = &self.markers[at];
        let boxed = |chain: Option<Flow>| chain.map(Box::new);
        let flow = match marker.code {
            TokenCode::Shoot => command(Command::Shoot, self.chain(self.ahead(marker), depth + 1)?),
            TokenCode::TurnLeft => {
                command(Command::TurnLeft, self.chain(self.ahead(marker), depth + 1)?)
            }
            TokenCode::TurnRight => {
                command(Command::TurnRight, self.chain(self.ahead(marker), depth + 1)?)
            }
            TokenCode::MoveForwards => command(
                Command::MoveForwards,
                self.chain(self.ahead(marker), depth + 1)?,
            ),
            TokenCode::MoveBackwards => command(
                Command::MoveBackwards,
                self.chain(self.ahead(marker), depth + 1)?,
            ),
            TokenCode::Blocked => {
                let on_true =
                    self.beyond(marker, Slot::TruePath, PI / 4.0, true_token_x(), true_token_y());
                let on_false = self.beyond(
                    marker,
                    Slot::FalsePath,
                    -PI / 4.0,
                    false_token_x(),
                    false_token_y(),
                );
                Flow {
                    kind: FlowKind::Conditional(Conditional {
                        kind: ConditionalKind::Blocked,
                        alternate: boxed(self.chain(on_false, depth + 1)?),
                    }),
                    next: boxed(self.chain(on_true, depth + 1)?),
                }
            }
            TokenCode::While => {
                let body = self.find(marker, None, expected(marker, Slot::Body), Self::is_flow);
                let parameter = self.find(marker, None, expected(marker, Slot::Parameter), |m| {
                    Token::new(m.code, 0).is_condition()
                });
                Flow {
                    kind: FlowKind::BooleanMethod(BooleanMethod {
                        kind: BooleanMethodKind::While,
                        body: boxed(self.chain(body, depth + 1)?),
                        condition: parameter.and_then(|at| match self.markers[at].code {
                            TokenCode::IsBlocked => Some(Condition::IsBlocked),
                            TokenCode::IsPathClear => Some(Condition::IsPathClear),
                            _ => None,
                        }),
                    }),
                    next: boxed(self.chain(self.ahead(marker), depth + 1)?),
                }
            }
            TokenCode::Repeat => {
                let body = self.find(marker, None, expected(marker, Slot::Body), Self::is_flow);
                let parameter = self.find(marker, None, expected(marker, Slot::Parameter), |m| {
                    Token::new(m.code, 0).is_value()
                });
                Flow {
                    kind: FlowKind::IntegerMethod(IntegerMethod {
                        kind: IntegerMethodKind::Repeat,
                        body: boxed(self.chain(body, depth + 1)?),
                        value: parameter.and_then(|at| match self.markers[at].code {
                            TokenCode::Value1 => Some(IntegerValue::One),
                            TokenCode::Value2 => Some(IntegerValue::Two),
                            TokenCode::Value3 => Some(IntegerValue::Three),
                            TokenCode::Value4 => Some(IntegerValue::Four),
                            TokenCode::Value5 => Some(IntegerValue::Five),
                            TokenCode::Value6 => Some(IntegerValue::Six),
                            TokenCode::Value7 => Some(IntegerValue::Seven),
                            TokenCode::Value8 => Some(IntegerValue::Eight),
                            TokenCode::ValueInfinite => Some(IntegerValue::Infinity),
                            _ => None,
                        }),
                    }),
                    next: boxed(self.chain(self.ahead(marker), depth + 1)?),
                }
            }
            _ => panic!("a token that takes no place in a chain was found in one"),
        };
        Ok(Some(flow))
    }

    fn program(&self) -> Result<Option<Start>, ()> {
        let start = self
            .markers
            .iter()
            .find(|marker| marker.code == TokenCode::Start);
        match start {
            Some(marker) => Ok(Some(Start {
                next: self.chain(self.ahead(marker), 1)?,
            })),
            None => Ok(None),
        }
    }
}

/// Numbers that look scattered and are the same at every run.
struct Scatter(u64);

impl Scatter {
    fn next(&mut self) -> u64 {
        self.0 = self
            .0
            .wrapping_mul(6364136223846793005)
            .wrapping_add(1442695040888963407);
        self.0 >> 33
    }

    fn below(&mut self, limit: usize) -> usize {
        (self.next() % limit as u64) as usize
    }

    fn between(&mut self, low: f64, high: f64) -> f64 {
        low + (high - low) * (self.next() % 10_000) as f64 / 10_000.0
    }
}

const CODES: [TokenCode; 14] = [
    TokenCode::Blocked,
    TokenCode::MoveBackwards,
    TokenCode::MoveForwards,
    TokenCode::Shoot,
    TokenCode::TurnLeft,
    TokenCode::TurnRight,
    TokenCode::Repeat,
    TokenCode::While,
    TokenCode::Value3,
    TokenCode::ValueInfinite,
    TokenCode::IsBlocked,
    TokenCode::IsPathClear,
    TokenCode::Start,
    TokenCode::Undefined,
];

fn scattered_batch(scatter: &mut Scatter, size: usize, diameter: f64, noise: f64) -> Vec<Marker> {
    let mut markers = vec![Marker {
        code: TokenCode::Start,
        diameter,
        orientation: scatter.between(0.0, TWO_PI),
        x: 0.0,
        y: 0.0,
    }];
    while markers.len() < size {
        let from = markers[scatter.below(markers.len())];
        let slot = SLOTS[scatter.below(SLOTS.len())];
        let (x, y, angle) = expected(&from, slot);
        let twin = scatter.below(12) == 0;
        let marker = if twin {
            Marker {
                code: CODES[scatter.below(CODES.len())],
                ..from
            }
        } else {
            Marker {
                code: CODES[scatter.below(CODES.len())],
                diameter,
                orientation: get_angle(angle + scatter.between(-0.7, 0.7)),
                x: x + scatter.between(-noise, noise),
                y: y + scatter.between(-noise, noise),
            }
        };
        markers.push(marker);
    }
    for _ in 0..size {
        let one = scatter.below(size);
        let other = scatter.below(size);
        markers.swap(one, other);
    }
    markers
}

#[test]
fn links_spell_what_a_walk_over_the_measurements_finds() {
    let mut scatter = Scatter(2024);
    let mut walked = 0;
    let mut deep = 0;
    for round in 0..3000 {
        let size = 1 + scatter.below(9);
        let diameter = [48.0, 48.0, 30.0, 12.0, 72.0][round % 5];
        let noise = [10.0, 45.0, 70.0][round % 3];
        let markers = scattered_batch(&mut scatter, size, diameter, noise);
        let parsed = parser_of(&markers).parse();
        match (Walk { markers: &markers }).program() {
            Ok(program) => {
                assert_eq!(program, parsed, "batch {:?}", markers);
                walked += 1;
            }
            Err(()) => {
                assert!(parsed.is_some());
                deep += 1;
            }
        }
    }
    assert!(walked > 2000);
    assert!(deep > 0);
}
