//! From a batch of tokens to the program that they spell.
//!
//! A batch is a list of tokens in the order in which they were seen, with
//! links that say which token lies where another one expects a neighbour.
//! The parser starts at the first start token and follows the links: from
//! each token to the one after it, into the bodies of loops and down both
//! sides of a branch.
//!
//! Where several tokens lie in one slot, the first of them in the order of
//! the batch fills it. Tokens count as one where they carry the same code at
//! the same place. A token never fills a slot of its own, and no token fills
//! a slot below itself: a search passes over the asking token and over the
//! tokens on the way from the start to it, and over every token that is one
//! of them over again. So every chain ends, and no way down a program is
//! longer than the batch.

use vstd::prelude::*;
use crate::ast::{
    boxed, depth_of, BooleanMethod, BooleanMethodKind, Command, Condition, Conditional, ConditionalKind, Flow,
    FlowKind, IntegerMethod, IntegerMethodKind, IntegerValue, Start,
};
use crate::tokens::{Token, TokenCode};

verus! {

/// The places around a token where it expects another one.
#[derive(Clone, Copy, Debug, PartialEq, Eq, Structural)]
pub enum Slot {
    /// Straight ahead, where the chain goes on.
    Next,
    /// Where the body of a loop begins.
    Body,
    /// Where the parameter of a loop is attached.
    Parameter,
    /// Ahead of the exit of a branch that is taken when its test holds.
    TruePath,
    /// Ahead of the exit of a branch that is taken when its test fails.
    FalsePath,
}

/// Says that token `to` of a batch lies where token `from` expects what
/// fills `slot`: near enough to that point, and turned nearly as expected.
#[derive(Clone, Copy, Debug, PartialEq, Eq, Structural)]
pub struct Link {
    pub from: usize,
    pub slot: Slot,
    pub to: usize,
}

impl Link {
    /// A link from token `from` through `slot` to token `to`.
    pub fn new(from: usize, slot: Slot, to: usize) -> (link: Self)
        ensures
            link == (Link { from, slot, to }),
    {
        Self { from, slot, to }
    }
}

/// The kinds of token that a slot may take.
#[derive(Clone, Copy, Debug, PartialEq, Eq, Structural)]
pub enum TokenClass {
    /// What takes a place in a chain.
    Flow,
    /// The count of a `repeat` loop.
    Value,
    /// The condition of a `while` loop.
    Condition,
}

impl TokenClass {
    /// Whether a token with this code belongs to the class.
    pub open spec fn holds(self, code: TokenCode) -> bool {
        match self {
            TokenClass::Flow => code.is_flow(),
            TokenClass::Value => code.is_value(),
            TokenClass::Condition => code.is_condition(),
        }
    }

    /// Whether the token belongs to the class.
    pub fn has(&self, token: &Token) -> (yes: bool)
        ensures
            yes == self.holds(token.code),
    {
        match self {
            TokenClass::Flow => token.is_flow(),
            TokenClass::Value => token.is_value(),
            TokenClass::Condition => token.is_condition(),
        }
    }
}

/// The tokens that a list of marks picks out: those whose mark is set.
pub open spec fn marked(marks: Seq<bool>) -> Set<int> {
    Set::new(|index: int| 0 <= index < marks.len() && marks[index])
}

/// An index, if there is one, as a number without a bound.
pub open spec fn position(found: Option<usize>) -> Option<int> {
    match found {
        Some(index) => Some(index as int),
        None => None,
    }
}

/// How many of the tokens before `limit` are not on `path`.
pub open spec fn unmarked_below(path: Set<int>, limit: int) -> nat
    decreases limit,
{
    if limit <= 0 {
        0
    } else if path.contains(limit - 1) {
        unmarked_below(path, limit - 1)
    } else {
        unmarked_below(path, limit - 1) + 1
    }
}

/// A path with one more token on it leaves no more tokens off it.
pub proof fn lemma_unmarked_grows_not(path: Set<int>, at: int, limit: int)
    ensures
        unmarked_below(path.insert(at), limit) <= unmarked_below(path, limit),
    decreases limit,
{
    if limit > 0 {
        lemma_unmarked_grows_not(path, at, limit - 1);
    }
}

/// No more tokens are off a path than there are tokens.
pub proof fn lemma_unmarked_at_most(path: Set<int>, limit: int)
    requires
        0 <= limit,
    ensures
        unmarked_below(path, limit) <= limit,
    decreases limit,
{
    if limit > 0 {
        lemma_unmarked_at_most(path, limit - 1);
    }
}

/// A path that takes in a token which was not on it leaves fewer tokens
/// off it.
pub proof fn lemma_unmarked_shrinks(path: Set<int>, at: int, limit: int)
    requires
        0 <= at < limit,
        !path.contains(at),
    ensures
        unmarked_below(path.insert(at), limit) < unmarked_below(path, limit),
    decreases limit,
{
    if at == limit - 1 {
        lemma_unmarked_grows_not(path, at, limit - 1);
    } else {
        lemma_unmarked_shrinks(path, at, limit - 1);
    }
}

/// The command that a code stands for.
pub open spec fn command_of(code: TokenCode) -> Option<Command> {
    match code {
        TokenCode::Shoot => Some(Command::Shoot),
        TokenCode::TurnLeft => Some(Command::TurnLeft),
        TokenCode::TurnRight => Some(Command::TurnRight),
        TokenCode::MoveForwards => Some(Command::MoveForwards),
        TokenCode::MoveBackwards => Some(Command::MoveBackwards),
        _ => None,
    }
}

/// The condition that a code stands for.
pub open spec fn condition_of(code: TokenCode) -> Option<Condition> {
    match code {
        TokenCode::IsBlocked => Some(Condition::IsBlocked),
        TokenCode::IsPathClear => Some(Condition::IsPathClear),
        _ => None,
    }
}

/// The count that a code stands for.
pub open spec fn value_of(code: TokenCode) -> Option<IntegerValue> {
    match code {
        TokenCode::Value1 => Some(IntegerValue::One),
        TokenCode::Value2 => Some(IntegerValue::Two),
        TokenCode::Value3 => Some(IntegerValue::Three),
        TokenCode::Value4 => Some(IntegerValue::Four),
        TokenCode::Value5 => Some(IntegerValue::Five),
        TokenCode::Value6 => Some(IntegerValue::Six),
        TokenCode::Value7 => Some(IntegerValue::Seven),
        TokenCode::Value8 => Some(IntegerValue::Eight),
        TokenCode::ValueInfinite => Some(IntegerValue::Infinity),
        _ => None,
    }
}

/// A batch as the parser reads it: the tokens in the order in which they
/// were seen, and the links between them.
pub struct Batch {
    pub tokens: Seq<Token>,
    pub links: Seq<Link>,
}

impl Batch {
    /// Whether a link of the batch says that token `to` lies where token
    /// `from` expects what fills `slot`.
    pub open spec fn linked(&self, from: int, slot: Slot, to: int) -> bool {
        exists|k: int|
            0 <= k < self.links.len() && (#[trigger] self.links[k]).from == from
                && self.links[k].slot == slot && self.links[k].to == to
    }

    /// Whether a token of the batch that is on `path` is the given token
    /// over again: one with the same code at the same place.
    pub open spec fn bars(&self, path: Set<int>, token: Token) -> bool {
        exists|above: int|
            0 <= above < self.tokens.len() && path.contains(above) && #[trigger] self.tokens[above]
                == token
    }

    /// Whether token `candidate` may fill `slot` of token `from`: it is a
    /// token of the wanted class, it is not token `from` over again nor a
    /// token of the path that led to `from` over again, and it lies where it
    /// should.
    pub open spec fn accepts(
        &self,
        from: int,
        slot: Slot,
        class: TokenClass,
        path: Set<int>,
        candidate: int,
    ) -> bool {
        &&& 0 <= from < self.tokens.len()
        &&& 0 <= candidate < self.tokens.len()
        &&& class.holds(self.tokens[candidate].code)
        &&& self.tokens[candidate] != self.tokens[from]
        &&& !self.bars(path, self.tokens[candidate])
        &&& self.linked(from, slot, candidate)
    }

    /// The first token at or after `at`, in the order of the batch, that may
    /// fill `slot` of token `from`.
    pub open spec fn first_from(
        &self,
        from: int,
        slot: Slot,
        class: TokenClass,
        path: Set<int>,
        at: int,
    ) -> Option<int>
        decreases self.tokens.len() - at,
    {
        if at < 0 || at >= self.tokens.len() {
            None
        } else if self.accepts(from, slot, class, path, at) {
            Some(at)
        } else {
            self.first_from(from, slot, class, path, at + 1)
        }
    }

    /// The token that fills `slot` of token `from`: the first one in the
    /// order of the batch that may fill it, whether or not another one
    /// lies nearer.
    pub open spec fn first_match(&self, from: int, slot: Slot, class: TokenClass, path: Set<int>) -> Option<
        int,
    > {
        self.first_from(from, slot, class, path, 0)
    }

    /// What `first_from` finds is a token that may fill the slot, and no
    /// token between `at` and it may; where it finds nothing, no token from
    /// `at` on may fill the slot.
    pub proof fn lemma_first_from(
        &self,
        from: int,
        slot: Slot,
        class: TokenClass,
        path: Set<int>,
        at: int,
    )
        requires
            0 <= at,
        ensures
            match self.first_from(from, slot, class, path, at) {
                Some(found) => at <= found < self.tokens.len() && !path.contains(found)
                    && self.accepts(from, slot, class, path, found) && forall|other: int|
                    at <= other < found ==> !self.accepts(from, slot, class, path, other),
                None => forall|other: int|
                    at <= other ==> !self.accepts(from, slot, class, path, other),
            },
        decreases self.tokens.len() - at,
    {
        if at < self.tokens.len() && !self.accepts(from, slot, class, path, at) {
            self.lemma_first_from(from, slot, class, path, at + 1);
        }
        if let Some(found) = self.first_from(from, slot, class, path, at) {
            if path.contains(found) {
                assert(self.tokens[found] == self.tokens[found]);
            }
        }
    }

    /// Where no token from `at` on may fill the slot, `first_from` finds
    /// nothing.
    pub proof fn lemma_first_from_nothing(
        &self,
        from: int,
        slot: Slot,
        class: TokenClass,
        path: Set<int>,
        at: int,
    )
        requires
            forall|other: int| at <= other ==> !self.accepts(from, slot, class, path, other),
        ensures
            self.first_from(from, slot, class, path, at) is None,
        decreases self.tokens.len() - at,
    {
        if 0 <= at < self.tokens.len() {
            self.lemma_first_from_nothing(from, slot, class, path, at + 1);
        }
    }

    /// The first start token of the batch.
    pub open spec fn first_start_from(&self, at: int) -> Option<int>
        decreases self.tokens.len() - at,
    {
        if at < 0 || at >= self.tokens.len() {
            None
        } else if self.tokens[at].code == TokenCode::Start {
            Some(at)
        } else {
            self.first_start_from(at + 1)
        }
    }

    /// How many tokens of the batch are not on `path`.
    pub open spec fn room(&self, path: Set<int>) -> nat {
        unmarked_below(path, self.tokens.len() as int)
    }

    /// The chain that begins with the token that was found, if one was.
    /// `path` holds the tokens on the way from the start to that token.
    pub open spec fn chain_from(&self, found: Option<int>, path: Set<int>) -> Option<Flow>
        decreases self.room(path), 1int,
    {
        match found {
            Some(at) => Some(self.flow_at(at, path)),
            None => None,
        }
    }

    /// The chain that begins with token `at`, a token that takes a place in
    /// a chain and is not on `path`. What lies below the token is looked for
    /// among the tokens that are neither a token of `path` nor token `at`
    /// over again.
    pub open spec fn flow_at(&self, at: int, path: Set<int>) -> Flow
        decreases self.room(path), 0int,
        when 0 <= at < self.tokens.len() && !path.contains(at) && self.tokens[at].code.is_flow()
    {
        let below = path.insert(at);
        let code = self.tokens[at].code;
        proof {
            lemma_unmarked_shrinks(path, at, self.tokens.len() as int);
        }
        if code.is_command() {
            self.command_at(at, below)
        } else if code == TokenCode::Blocked {
            self.conditional_at(at, below)
        } else if code == TokenCode::While {
            self.boolean_method_at(at, below)
        } else {
            self.integer_method_at(at, below)
        }
    }

    /// The chain that begins with the command at `at`: the command, and
    /// after it the chain that begins with the token ahead of it.
    pub open spec fn command_at(&self, at: int, below: Set<int>) -> Flow
        decreases self.room(below), 2int,
    {
        Flow {
            kind: FlowKind::Command(command_of(self.tokens[at].code).unwrap()),
            next: boxed(
                self.chain_from(self.first_match(at, Slot::Next, TokenClass::Flow, below), below),
            ),
        }
    }

    /// The chain that begins with the branch at `at`. It goes on with the
    /// chain ahead of the exit taken when the test holds; the chain ahead of
    /// the other exit is the branch's alternate.
    pub open spec fn conditional_at(&self, at: int, below: Set<int>) -> Flow
        decreases self.room(below), 2int,
    {
        Flow {
            kind: FlowKind::Conditional(
                Conditional {
                    kind: ConditionalKind::Blocked,
                    alternate: boxed(
                        self.chain_from(
                            self.first_match(at, Slot::FalsePath, TokenClass::Flow, below),
                            below,
                        ),
                    ),
                },
            ),
            next: boxed(
                self.chain_from(
                    self.first_match(at, Slot::TruePath, TokenClass::Flow, below),
                    below,
                ),
            ),
        }
    }

    /// The condition on the token that was found, if one was.
    pub open spec fn condition_at(&self, found: Option<int>) -> Option<Condition> {
        match found {
            Some(at) => if 0 <= at < self.tokens.len() {
                condition_of(self.tokens[at].code)
            } else {
                None
            },
            None => None,
        }
    }

    /// The count on the token that was found, if one was.
    pub open spec fn value_at(&self, found: Option<int>) -> Option<IntegerValue> {
        match found {
            Some(at) => if 0 <= at < self.tokens.len() {
                value_of(self.tokens[at].code)
            } else {
                None
            },
            None => None,
        }
    }

    /// The chain that begins with the `while` loop at `at`: the loop with
    /// the chain in its body and the condition attached to it, and after it
    /// the chain that begins with the token ahead of it.
    pub open spec fn boolean_method_at(&self, at: int, below: Set<int>) -> Flow
        decreases self.room(below), 2int,
    {
        Flow {
            kind: FlowKind::BooleanMethod(
                BooleanMethod {
                    kind: BooleanMethodKind::While,
                    body: boxed(
                        self.chain_from(
                            self.first_match(at, Slot::Body, TokenClass::Flow, below),
                            below,
                        ),
                    ),
                    condition: self.condition_at(
                        self.first_match(at, Slot::Parameter, TokenClass::Condition, Set::empty()),
                    ),
                },
            ),
            next: boxed(
                self.chain_from(self.first_match(at, Slot::Next, TokenClass::Flow, below), below),
            ),
        }
    }

    /// The chain that begins with the `repeat` loop at `at`: the loop with
    /// the chain in its body and the count attached to it, and after it the
    /// chain that begins with the token ahead of it.
    pub open spec fn integer_method_at(&self, at: int, below: Set<int>) -> Flow
        decreases self.room(below), 2int,
    {
        Flow {
            kind: FlowKind::IntegerMethod(
                IntegerMethod {
                    kind: IntegerMethodKind::Repeat,
                    body: boxed(
                        self.chain_from(
                            self.first_match(at, Slot::Body, TokenClass::Flow, below),
                            below,
                        ),
                    ),
                    value: self.value_at(
                        self.first_match(at, Slot::Parameter, TokenClass::Value, Set::empty()),
                    ),
                },
            ),
            next: boxed(
                self.chain_from(self.first_match(at, Slot::Next, TokenClass::Flow, below), below),
            ),
        }
    }

    /// The program that begins with the start token that was found, if one
    /// was: the chain that begins with the token ahead of it.
    pub open spec fn program_from(&self, found: Option<int>) -> Option<Start> {
        match found {
            Some(at) => Some(
                Start {
                    next: self.chain_from(
                        self.first_match(at, Slot::Next, TokenClass::Flow, Set::empty()),
                        Set::empty(),
                    ),
                },
            ),
            None => None,
        }
    }

    /// The program that the batch spells: the one that begins with its first
    /// start token. A batch without a start token spells none.
    pub open spec fn program(&self) -> Option<Start> {
        self.program_from(self.first_start_from(0))
    }

    /// The tokens that the nodes of a chain are built from: those of the
    /// chain that begins with the token that was found, if one was.
    pub open spec fn chain_tokens(&self, found: Option<int>, path: Set<int>) -> Set<int>
        decreases self.room(path), 1int,
    {
        match found {
            Some(at) => self.flow_tokens(at, path),
            None => Set::empty(),
        }
    }

    /// The tokens that the nodes of the chain at `at` are built from: token
    /// `at`, and the tokens of the chains that hang from it.
    pub open spec fn flow_tokens(&self, at: int, path: Set<int>) -> Set<int>
        decreases self.room(path), 0int,
        when 0 <= at < self.tokens.len() && !path.contains(at) && self.tokens[at].code.is_flow()
    {
        let below = path.insert(at);
        proof {
            lemma_unmarked_shrinks(path, at, self.tokens.len() as int);
        }
        self.hanging_tokens(at, Slot::Next, below).union(
            self.hanging_tokens(at, Slot::Body, below),
        ).union(self.hanging_tokens(at, Slot::TruePath, below)).union(
            self.hanging_tokens(at, Slot::FalsePath, below),
        ).insert(at)
    }

    /// The tokens that the nodes of the chain in `slot` of token `at` are
    /// built from, where a token of that kind has a chain in that slot: a
    /// branch on its two sides, a loop in its body and after it, a command
    /// after it.
    pub open spec fn hanging_tokens(&self, at: int, slot: Slot, below: Set<int>) -> Set<int>
        decreases self.room(below), 2int,
    {
        if self.hangs(at, slot) {
            self.chain_tokens(self.first_match(at, slot, TokenClass::Flow, below), below)
        } else {
            Set::empty()
        }
    }

    /// Whether a chain hangs in `slot` of the token at `at`.
    pub open spec fn hangs(&self, at: int, slot: Slot) -> bool {
        let code = self.tokens[at].code;
        match slot {
            Slot::Next => code.is_flow() && code != TokenCode::Blocked,
            Slot::Body => code == TokenCode::While || code == TokenCode::Repeat,
            Slot::TruePath => code == TokenCode::Blocked,
            Slot::FalsePath => code == TokenCode::Blocked,
            Slot::Parameter => false,
        }
    }

    /// What a search finds is a token of the class that was asked for, which
    /// is neither the asking token nor a token of the path over again; and no
    /// token before it in the batch is such a token that lies in the slot.
    pub proof fn lemma_first_match(&self, from: int, slot: Slot, class: TokenClass, path: Set<int>)
        ensures
            match self.first_match(from, slot, class, path) {
                Some(found) => !path.contains(found) && self.accepts(
                    from,
                    slot,
                    class,
                    path,
                    found,
                ) && forall|other: int|
                    0 <= other < found ==> !self.accepts(from, slot, class, path, other),
                None => forall|other: int| !self.accepts(from, slot, class, path, other),
            },
    {
        self.lemma_first_from(from, slot, class, path, 0);
    }

    /// No search finds a token that is on its path, nor such a token over
    /// again. The path of every search below a token holds that token, so a
    /// chain never comes back to a token that it hangs from: a loop's body
    /// does not lead into the loop again, nor a branch's side into the
    /// branch.
    pub proof fn lemma_search_stays_off_path(
        &self,
        from: int,
        slot: Slot,
        class: TokenClass,
        path: Set<int>,
        above: int,
    )
        requires
            path.contains(above),
        ensures
            self.first_match(from, slot, class, path) != Some(above),
            self.first_match(from, slot, class, path) matches Some(found) ==> 0 <= above
                < self.tokens.len() ==> self.tokens[found] != self.tokens[above],
    {
        self.lemma_first_match(from, slot, class, path);
    }

    /// A longer path bars all that a shorter one bars.
    pub proof fn lemma_bars_more(&self, shorter: Set<int>, longer: Set<int>, token: Token)
        requires
            shorter.subset_of(longer),
            self.bars(shorter, token),
        ensures
            self.bars(longer, token),
    {
        let above = choose|above: int|
            0 <= above < self.tokens.len() && shorter.contains(above) && #[trigger] self.tokens[above]
                == token;
        assert(longer.contains(above));
    }

    /// A longer path changes what a search finds only where the longer path
    /// bars the token that was found: then the search goes on to a later
    /// token, or finds nothing. So to leave out the tokens that a chain hangs
    /// from changes a chain only where it would come back to one of them.
    pub proof fn lemma_longer_path(
        &self,
        from: int,
        slot: Slot,
        class: TokenClass,
        shorter: Set<int>,
        longer: Set<int>,
    )
        requires
            shorter.subset_of(longer),
        ensures
            match self.first_match(from, slot, class, shorter) {
                Some(found) => if self.bars(longer, self.tokens[found]) {
                    match self.first_match(from, slot, class, longer) {
                        Some(later) => found < later,
                        None => true,
                    }
                } else {
                    self.first_match(from, slot, class, longer) == Some(found)
                },
                None => self.first_match(from, slot, class, longer) is None,
            },
    {
        self.lemma_first_match(from, slot, class, shorter);
        self.lemma_first_match(from, slot, class, longer);
        if let Some(later) = self.first_match(from, slot, class, longer) {
            if self.bars(shorter, self.tokens[later]) {
                self.lemma_bars_more(shorter, longer, self.tokens[later]);
            }
            assert(self.accepts(from, slot, class, shorter, later));
        }
        if let Some(found) = self.first_match(from, slot, class, shorter) {
            if !self.bars(longer, self.tokens[found]) {
                assert(self.accepts(from, slot, class, longer, found));
            }
        }
    }

    /// A search never finds the asking token, nor one that lies just as it
    /// does and carries the same code.
    pub proof fn lemma_search_leaves_asker(
        &self,
        from: int,
        slot: Slot,
        class: TokenClass,
        path: Set<int>,
    )
        ensures
            self.first_match(from, slot, class, path) matches Some(found) ==> found != from
                && self.tokens[found] != self.tokens[from],
    {
        self.lemma_first_match(from, slot, class, path);
    }

    /// A token of one class is never found where another class is asked
    /// for, wherever it lies: a count is no condition, a condition is no
    /// count, and neither takes a place in a chain.
    pub proof fn lemma_search_keeps_class(
        &self,
        from: int,
        slot: Slot,
        class: TokenClass,
        path: Set<int>,
        other: TokenClass,
        candidate: int,
    )
        requires
            0 <= candidate < self.tokens.len(),
            other.holds(self.tokens[candidate].code),
            other != class,
        ensures
            self.first_match(from, slot, class, path) != Some(candidate),
    {
        self.lemma_first_match(from, slot, class, path);
    }

    /// A chain that was found is no deeper than the number of tokens that
    /// are not on the path of the search that found it.
    pub proof fn lemma_chain_depth(
        &self,
        from: int,
        slot: Slot,
        path: Set<int>,
    )
        ensures
            depth_of(boxed(self.chain_from(self.first_match(from, slot, TokenClass::Flow, path), path)))
                <= self.room(path),
        decreases self.room(path), 1int,
    {
        self.lemma_first_match(from, slot, TokenClass::Flow, path);
        if let Some(found) = self.first_match(from, slot, TokenClass::Flow, path) {
            self.lemma_flow_depth(found, path);
        }
    }

    /// The chain that begins with a token is no deeper than the number of
    /// tokens that are not on the path to it: no way down a program passes
    /// the same token twice, so none is longer than the batch.
    pub proof fn lemma_flow_depth(&self, at: int, path: Set<int>)
        requires
            0 <= at < self.tokens.len(),
            !path.contains(at),
            self.tokens[at].code.is_flow(),
        ensures
            self.flow_at(at, path).depth() <= self.room(path),
        decreases self.room(path), 0int,
    {
        let below = path.insert(at);
        lemma_unmarked_shrinks(path, at, self.tokens.len() as int);
        self.lemma_chain_depth(at, Slot::Next, below);
        self.lemma_chain_depth(at, Slot::Body, below);
        self.lemma_chain_depth(at, Slot::TruePath, below);
        self.lemma_chain_depth(at, Slot::FalsePath, below);
    }

    /// No way down a program is longer than the batch that spells it.
    pub proof fn lemma_program_depth(&self)
        ensures
            self.program() matches Some(start) ==> depth_of(boxed(start.next))
                <= self.tokens.len(),
    {
        self.lemma_first_start_from(0);
        if let Some(start) = self.first_start_from(0) {
            self.lemma_chain_depth(start, Slot::Next, Set::empty());
            lemma_unmarked_at_most(Set::empty(), self.tokens.len() as int);
        }
    }

    /// Every token that a chain is built from takes a place in a chain and
    /// is no token of the path over again, the path being that of the search
    /// which found the chain.
    pub proof fn lemma_chain_off_path(&self, from: int, slot: Slot, path: Set<int>)
        ensures
            forall|used: int| #[trigger]
                self.chain_tokens(
                    self.first_match(from, slot, TokenClass::Flow, path),
                    path,
                ).contains(used) ==> 0 <= used < self.tokens.len()
                    && self.tokens[used].code.is_flow() && !path.contains(used) && !self.bars(
                    path,
                    self.tokens[used],
                ),
        decreases self.room(path), 1int,
    {
        self.lemma_first_match(from, slot, TokenClass::Flow, path);
        let found = self.first_match(from, slot, TokenClass::Flow, path);
        match found {
            Some(at) => {
                self.lemma_flow_off_path(at, path);
                assert(self.chain_tokens(found, path) == self.flow_tokens(at, path));
            },
            None => {
                assert(self.chain_tokens(found, path) == Set::<int>::empty());
            },
        }
    }

    /// Every token that the chain at `at` is built from takes a place in a
    /// chain and is no token of the path over again, if token `at` is none.
    pub proof fn lemma_flow_off_path(&self, at: int, path: Set<int>)
        requires
            0 <= at < self.tokens.len(),
            self.tokens[at].code.is_flow(),
            !self.bars(path, self.tokens[at]),
        ensures
            !path.contains(at),
            forall|used: int| #[trigger]
                self.flow_tokens(at, path).contains(used) ==> 0 <= used < self.tokens.len()
                    && self.tokens[used].code.is_flow() && !path.contains(used) && !self.bars(
                    path,
                    self.tokens[used],
                ),
        decreases self.room(path), 0int,
    {
        if path.contains(at) {
            assert(self.tokens[at] == self.tokens[at]);
        }
        let below = path.insert(at);
        lemma_unmarked_shrinks(path, at, self.tokens.len() as int);
        self.lemma_chain_off_path(at, Slot::Next, below);
        self.lemma_chain_off_path(at, Slot::Body, below);
        self.lemma_chain_off_path(at, Slot::TruePath, below);
        self.lemma_chain_off_path(at, Slot::FalsePath, below);
        assert forall|used: int| #[trigger]
            self.flow_tokens(at, path).contains(used) implies 0 <= used < self.tokens.len()
            && self.tokens[used].code.is_flow() && !path.contains(used) && !self.bars(
            path,
            self.tokens[used],
        ) by {
            if used != at {
                let slot = if self.hanging_tokens(at, Slot::Next, below).contains(used) {
                    Slot::Next
                } else if self.hanging_tokens(at, Slot::Body, below).contains(used) {
                    Slot::Body
                } else if self.hanging_tokens(at, Slot::TruePath, below).contains(used) {
                    Slot::TruePath
                } else {
                    Slot::FalsePath
                };
                assert(self.hanging_tokens(at, slot, below).contains(used));
                assert(self.chain_tokens(
                    self.first_match(at, slot, TokenClass::Flow, below),
                    below,
                ).contains(used));
                if self.bars(path, self.tokens[used]) {
                    self.lemma_bars_more(path, below, self.tokens[used]);
                }
            }
        }
    }

    /// What hangs from a token is built from no token that is that token
    /// over again: the body of a loop does not hold the loop, nor what comes
    /// after the loop, nor either side of a branch the branch. Where a search
    /// below the token would find it again, the search goes on to a later
    /// token or finds nothing.
    pub proof fn lemma_chain_leaves_token(&self, at: int, slot: Slot, path: Set<int>)
        requires
            0 <= at < self.tokens.len(),
        ensures
            forall|used: int| #[trigger]
                self.chain_tokens(
                    self.first_match(at, slot, TokenClass::Flow, path.insert(at)),
                    path.insert(at),
                ).contains(used) ==> used != at && self.tokens[used] != self.tokens[at],
    {
        let below = path.insert(at);
        self.lemma_chain_off_path(at, slot, below);
        assert forall|used: int| #[trigger]
            self.chain_tokens(
                self.first_match(at, slot, TokenClass::Flow, below),
                below,
            ).contains(used) implies used != at && self.tokens[used] != self.tokens[at] by {
            if self.tokens[used] == self.tokens[at] {
                assert(below.contains(at));
                assert(self.bars(below, self.tokens[used]));
            }
        }
    }

    /// A batch spells a program exactly if it holds a start token.
    pub proof fn lemma_program_needs_start(&self)
        ensures
            self.program() is Some <==> exists|at: int|
                0 <= at < self.tokens.len() && (#[trigger] self.tokens[at]).code
                    == TokenCode::Start,
    {
        self.lemma_first_start_from(0);
    }

    /// What `first_start_from` finds is a start token, and no token between
    /// `at` and it is one; where it finds nothing, there is none from `at`
    /// on.
    pub proof fn lemma_first_start_from(&self, at: int)
        requires
            0 <= at,
        ensures
            match self.first_start_from(at) {
                Some(found) => at <= found < self.tokens.len() && self.tokens[found].code
                    == TokenCode::Start && forall|other: int|
                    at <= other < found ==> (#[trigger] self.tokens[other]).code
                        != TokenCode::Start,
                None => forall|other: int|
                    at <= other < self.tokens.len() ==> (#[trigger] self.tokens[other]).code
                        != TokenCode::Start,
            },
        decreases self.tokens.len() - at,
    {
        if at < self.tokens.len() && self.tokens[at].code != TokenCode::Start {
            self.lemma_first_start_from(at + 1);
        }
    }

    /// A batch that holds a start token and no token that takes a place in
    /// a chain spells the empty program, whatever its links say.
    pub proof fn lemma_start_without_flow(&self)
        requires
            exists|at: int|
                0 <= at < self.tokens.len() && (#[trigger] self.tokens[at]).code
                    == TokenCode::Start,
            forall|at: int|
                0 <= at < self.tokens.len() ==> !(#[trigger] self.tokens[at]).code.is_flow(),
        ensures
            self.program() == Some(Start { next: None }),
    {
        self.lemma_first_start_from(0);
        let start = self.first_start_from(0).unwrap();
        self.lemma_first_match(start, Slot::Next, TokenClass::Flow, Set::empty());
    }
}

/// A batch of tokens and the links between them.
pub struct Parser {
    tokens: Vec<Token>,
    links: Vec<Link>,
}

impl View for Parser {
    type V = Batch;

    /// The batch that the parser holds.
    closed spec fn view(&self) -> Batch {
        Batch { tokens: self.tokens@, links: self.links@ }
    }
}

impl Parser {
    /// A parser for the batch with the given tokens and links.
    pub fn new(tokens: Vec<Token>, links: Vec<Link>) -> (parser: Self)
        ensures
            parser@ == (Batch { tokens: tokens@, links: links@ }),
    {
        Self { tokens, links }
    }

    /// Whether a link of the batch leads from `from` through `slot` to `to`.
    pub fn is_linked(&self, from: usize, slot: Slot, to: usize) -> (yes: bool)
        ensures
            yes == self@.linked(from as int, slot, to as int),
    {
        let mut k: usize = 0;
        while k < self.links.len()
            invariant
                k <= self@.links.len(),
                forall|seen: int|
                    0 <= seen < k ==> !((#[trigger] self@.links[seen]).from == from
                        && self@.links[seen].slot == slot && self@.links[seen].to == to),
            decreases self@.links.len() - k,
        {
            let link = self.links[k];
            if link.from == from && link.slot == slot && link.to == to {
                return true;
            }
            k += 1;
        }
        false
    }

    /// Whether a token that is marked in `path` is the given token over
    /// again: one with the same code at the same place.
    pub fn is_barred(&self, path: &Vec<bool>, token: &Token) -> (yes: bool)
        ensures
            yes == self@.bars(marked(path@), *token),
    {
        let mut above: usize = 0;
        while above < self.tokens.len() && above < path.len()
            invariant
                forall|seen: int|
                    0 <= seen < above && seen < self@.tokens.len() && marked(path@).contains(seen)
                        ==> #[trigger] self@.tokens[seen] != *token,
            decreases self@.tokens.len() - above,
        {
            if path[above] && self.tokens[above] == *token {
                return true;
            }
            above += 1;
        }
        false
    }

    /// The token that fills `slot` of token `from`, among those of `class`:
    /// the first one, in the order of the batch, that a link leads to and
    /// that is neither token `from` nor a token marked in `path` over again.
    pub fn find_token(&self, from: usize, slot: Slot, class: TokenClass, path: &Vec<bool>) -> (found:
        Option<usize>)
        ensures
            position(found) == self@.first_match(from as int, slot, class, marked(path@)),
            match found {
                Some(index) => self@.accepts(from as int, slot, class, marked(path@), index as int)
                    && forall|other: int|
                    0 <= other < index ==> !self@.accepts(
                        from as int,
                        slot,
                        class,
                        marked(path@),
                        other,
                    ),
                None => forall|other: int|
                    !self@.accepts(from as int, slot, class, marked(path@), other),
            },
    {
        if from >= self.tokens.len() {
            proof {
                self@.lemma_first_from_nothing(from as int, slot, class, marked(path@), 0);
            }
            return None;
        }
        let token = self.tokens[from];
        let mut at: usize = 0;
        while at < self.tokens.len()
            invariant
                at <= self@.tokens.len(),
                from < self@.tokens.len(),
                token == self@.tokens[from as int],
                self@.first_match(from as int, slot, class, marked(path@)) == self@.first_from(
                    from as int,
                    slot,
                    class,
                    marked(path@),
                    at as int,
                ),
            decreases self@.tokens.len() - at,
        {
            let candidate = self.tokens[at];
            if candidate != token && class.has(&candidate) && !self.is_barred(path, &candidate)
                && self.is_linked(
                from,
                slot,
                at,
            ) {
                proof {
                    self@.lemma_first_from(from as int, slot, class, marked(path@), 0);
                }
                return Some(at);
            }
            at += 1;
        }
        proof {
            self@.lemma_first_from(from as int, slot, class, marked(path@), 0);
        }
        None
    }

    /// The first start token of the batch, if it has one.
    pub fn find_start(&self) -> (found: Option<usize>)
        ensures
            position(found) == self@.first_start_from(0),
    {
        let mut at: usize = 0;
        while at < self.tokens.len()
            invariant
                at <= self@.tokens.len(),
                self@.first_start_from(0) == self@.first_start_from(at as int),
            decreases self@.tokens.len() - at,
        {
            if self.tokens[at].code == TokenCode::Start {
                return Some(at);
            }
            at += 1;
        }
        None
    }

    /// Given a flow token, find the token which is adjacent to it: the first
    /// flow token ahead of it that is no token of the path over again.
    pub fn find_adjacent_token(&self, token: usize, path: &Vec<bool>) -> (found: Option<usize>)
        ensures
            position(found) == self@.first_match(
                token as int,
                Slot::Next,
                TokenClass::Flow,
                marked(path@),
            ),
    {
        self.find_token(token, Slot::Next, TokenClass::Flow, path)
    }

    /// The token with which the body of the loop at `token` begins: the
    /// first flow token at that place that is no token of the path over again.
    pub fn find_method_body_token(&self, token: usize, path: &Vec<bool>) -> (found: Option<usize>)
        ensures
            position(found) == self@.first_match(
                token as int,
                Slot::Body,
                TokenClass::Flow,
                marked(path@),
            ),
    {
        self.find_token(token, Slot::Body, TokenClass::Flow, path)
    }

    /// Finds the method parameter token for the given method type. The
    /// class is used to ensure the input type is as expected (condition vs
    /// value): a token of another class is passed over wherever it lies.
    pub fn find_method_parameter_token(&self, token: usize, class: TokenClass) -> (found: Option<
        usize,
    >)
        ensures
            position(found) == self@.first_match(
                token as int,
                Slot::Parameter,
                class,
                Set::empty(),
            ),
    {
        let path: Vec<bool> = Vec::new();
        assert(marked(path@) =~= Set::<int>::empty());
        self.find_token(token, Slot::Parameter, class, &path)
    }

    /// The token with which the chain begins that the branch at `token`
    /// takes when its test holds.
    pub fn find_true_token(&self, token: usize, path: &Vec<bool>) -> (found: Option<usize>)
        ensures
            position(found) == self@.first_match(
                token as int,
                Slot::TruePath,
                TokenClass::Flow,
                marked(path@),
            ),
    {
        self.find_token(token, Slot::TruePath, TokenClass::Flow, path)
    }

    /// The token with which the chain begins that the branch at `token`
    /// takes when its test fails.
    pub fn find_false_token(&self, token: usize, path: &Vec<bool>) -> (found: Option<usize>)
        ensures
            position(found) == self@.first_match(
                token as int,
                Slot::FalsePath,
                TokenClass::Flow,
                marked(path@),
            ),
    {
        self.find_token(token, Slot::FalsePath, TokenClass::Flow, path)
    }

    /// The program that the batch spells, if it holds a start token. No way
    /// down the program is longer than the batch.
    pub fn parse(&self) -> (program: Option<Start>)
        ensures
            program == self@.program(),
            program is Some <==> exists|at: int|
                0 <= at < self@.tokens.len() && (#[trigger] self@.tokens[at]).code
                    == TokenCode::Start,
            program matches Some(start) ==> depth_of(boxed(start.next)) <= self@.tokens.len(),
    {
        proof {
            self@.lemma_program_needs_start();
            self@.lemma_program_depth();
        }
        let start_token = self.find_start();
        self.parse_start(start_token)
    }

    /// The program that begins with the given start token, if one is
    /// given.
    fn parse_start(&self, start_token: Option<usize>) -> (program: Option<Start>)
        ensures
            program == self@.program_from(position(start_token)),
    {
        match start_token {
            None => None,
            Some(token) => {
                let mut path: Vec<bool> = vec![false; self.tokens.len()];
                assert(marked(path@) =~= Set::<int>::empty());
                let next_token = self.find_adjacent_token(token, &path);
                proof {
                    self@.lemma_first_from(
                        token as int,
                        Slot::Next,
                        TokenClass::Flow,
                        marked(path@),
                        0,
                    );
                }
                let next = self.parse_flow(next_token, &mut path);
                Some(Start { next })
            },
        }
    }

    /// The chain that begins with the given token, if one is given. The
    /// token is marked in `path` while what lies below it is parsed, and
    /// `path` is handed back as it came.
    fn parse_flow(&self, current_token: Option<usize>, path: &mut Vec<bool>) -> (flow: Option<Flow>)
        requires
            old(path)@.len() == self@.tokens.len(),
            current_token matches Some(token) ==> token < self@.tokens.len()
                && self@.tokens[token as int].code.is_flow() && !old(path)@[token as int],
        ensures
            final(path)@ == old(path)@,
            flow == self@.chain_from(position(current_token), marked(old(path)@)),
        decreases self@.room(marked(old(path)@)), 1int,
    {
        match current_token {
            None => None,
            Some(token) => {
                let ghost above = marked(path@);
                path[token] = true;
                proof {
                    assert(marked(path@) =~= above.insert(token as int));
                    lemma_unmarked_shrinks(above, token as int, self@.tokens.len() as int);
                }
                let flow = match self.tokens[token].code {
                    TokenCode::Shoot
                    | TokenCode::TurnLeft
                    | TokenCode::TurnRight
                    | TokenCode::MoveForwards
                    | TokenCode::MoveBackwards => self.parse_command(token, path),
                    TokenCode::Blocked => self.parse_conditional(token, path),
                    TokenCode::While => self.parse_boolean_method(token, path),
                    TokenCode::Repeat => self.parse_integer_method(token, path),
                    TokenCode::Start
                    | TokenCode::Value1
                    | TokenCode::Value2
                    | TokenCode::Value3
                    | TokenCode::Value4
                    | TokenCode::Value5
                    | TokenCode::Value6
                    | TokenCode::Value7
                    | TokenCode::Value8
                    | TokenCode::ValueInfinite
                    | TokenCode::IsBlocked
                    | TokenCode::IsPathClear
                    | TokenCode::Undefined => unreached(),
                };
                path[token] = false;
                assert(path@ =~= old(path)@);
                Some(flow)
            },
        }
    }

    /// The chain that begins with the command at `current_token`.
    fn parse_command(&self, current_token: usize, path: &mut Vec<bool>) -> (flow: Flow)
        requires
            old(path)@.len() == self@.tokens.len(),
            current_token < self@.tokens.len(),
            self@.tokens[current_token as int].code.is_command(),
        ensures
            final(path)@ == old(path)@,
            flow == self@.command_at(current_token as int, marked(old(path)@)),
        decreases self@.room(marked(old(path)@)), 3int,
    {
        let command = match self.tokens[current_token].code {
            TokenCode::Shoot => Command::Shoot,
            TokenCode::TurnLeft => Command::TurnLeft,
            TokenCode::TurnRight => Command::TurnRight,
            TokenCode::MoveForwards => Command::MoveForwards,
            TokenCode::MoveBackwards => Command::MoveBackwards,
            TokenCode::Start
            | TokenCode::Blocked
            | TokenCode::Repeat
            | TokenCode::While
            | TokenCode::Value1
            | TokenCode::Value2
            | TokenCode::Value3
            | TokenCode::Value4
            | TokenCode::Value5
            | TokenCode::Value6
            | TokenCode::Value7
            | TokenCode::Value8
            | TokenCode::ValueInfinite
            | TokenCode::IsBlocked
            | TokenCode::IsPathClear
            | TokenCode::Undefined => unreached(),
        };
        let next = self.parse_next(current_token, Slot::Next, path);
        Flow { kind: FlowKind::Command(command), next }
    }

    /// The chain that begins with the branch at `current_token`.
    fn parse_conditional(&self, current_token: usize, path: &mut Vec<bool>) -> (flow: Flow)
        requires
            old(path)@.len() == self@.tokens.len(),
            current_token < self@.tokens.len(),
            self@.tokens[current_token as int].code == TokenCode::Blocked,
        ensures
            final(path)@ == old(path)@,
            flow == self@.conditional_at(current_token as int, marked(old(path)@)),
        decreases self@.room(marked(old(path)@)), 3int,
    {
        let conditional_kind = ConditionalKind::Blocked;
        let alternate = self.parse_next(current_token, Slot::FalsePath, path);
        let next = self.parse_next(current_token, Slot::TruePath, path);
        Flow {
            kind: FlowKind::Conditional(Conditional { kind: conditional_kind, alternate }),
            next,
        }
    }

    /// The chain that begins with the `while` loop at `current_token`.
    fn parse_boolean_method(&self, current_token: usize, path: &mut Vec<bool>) -> (flow: Flow)
        requires
            old(path)@.len() == self@.tokens.len(),
            current_token < self@.tokens.len(),
            self@.tokens[current_token as int].code == TokenCode::While,
        ensures
            final(path)@ == old(path)@,
            flow == self@.boolean_method_at(current_token as int, marked(old(path)@)),
        decreases self@.room(marked(old(path)@)), 3int,
    {
        let boolean_method_kind = BooleanMethodKind::While;
        let body = self.parse_next(current_token, Slot::Body, path);
        let condition = self.parse_condition(
            self.find_method_parameter_token(current_token, TokenClass::Condition),
        );
        let next = self.parse_next(current_token, Slot::Next, path);
        Flow {
            kind: FlowKind::BooleanMethod(
                BooleanMethod { kind: boolean_method_kind, body, condition },
            ),
            next,
        }
    }

    /// The condition on a token, if a token is given and it carries one.
    pub fn parse_condition(&self, candidate: Option<usize>) -> (condition: Option<Condition>)
        ensures
            condition == self@.condition_at(position(candidate)),
    {
        match candidate {
            Some(token) => {
                if token < self.tokens.len() {
                    match self.tokens[token].code {
                        TokenCode::IsBlocked => Some(Condition::IsBlocked),
                        TokenCode::IsPathClear => Some(Condition::IsPathClear),
                        _ => None,
                    }
                } else {
                    None
                }
            },
            None => None,
        }
    }

    /// The chain that begins with the `repeat` loop at `current_token`.
    fn parse_integer_method(&self, current_token: usize, path: &mut Vec<bool>) -> (flow: Flow)
        requires
            old(path)@.len() == self@.tokens.len(),
            current_token < self@.tokens.len(),
            self@.tokens[current_token as int].code == TokenCode::Repeat,
        ensures
            final(path)@ == old(path)@,
            flow == self@.integer_method_at(current_token as int, marked(old(path)@)),
        decreases self@.room(marked(old(path)@)), 3int,
    {
        let integer_method_kind = IntegerMethodKind::Repeat;
        let body = self.parse_next(current_token, Slot::Body, path);
        let value = self.parse_value(
            self.find_method_parameter_token(current_token, TokenClass::Value),
        );
        let next = self.parse_next(current_token, Slot::Next, path);
        Flow {
            kind: FlowKind::IntegerMethod(IntegerMethod { kind: integer_method_kind, body, value }),
            next,
        }
    }

    /// The count on a token, if a token is given and it carries one.
    pub fn parse_value(&self, candidate: Option<usize>) -> (value: Option<IntegerValue>)
        ensures
            value == self@.value_at(position(candidate)),
    {
        match candidate {
            Some(token) => {
                if token < self.tokens.len() {
                    match self.tokens[token].code {
                        TokenCode::Value1 => Some(IntegerValue::One),
                        TokenCode::Value2 => Some(IntegerValue::Two),
                        TokenCode::Value3 => Some(IntegerValue::Three),
                        TokenCode::Value4 => Some(IntegerValue::Four),
                        TokenCode::Value5 => Some(IntegerValue::Five),
                        TokenCode::Value6 => Some(IntegerValue::Six),
                        TokenCode::Value7 => Some(IntegerValue::Seven),
                        TokenCode::Value8 => Some(IntegerValue::Eight),
                        TokenCode::ValueInfinite => Some(IntegerValue::Infinity),
                        _ => None,
                    }
                } else {
                    None
                }
            },
            None => None,
        }
    }

    /// The chain that fills `slot` of the token at `current_token`, ready
    /// to be held by the node for that token.
    fn parse_next(&self, current_token: usize, slot: Slot, path: &mut Vec<bool>) -> (chain: Option<
        Box<Flow>,
    >)
        requires
            old(path)@.len() == self@.tokens.len(),
            slot != Slot::Parameter,
        ensures
            final(path)@ == old(path)@,
            chain == boxed(
                self@.chain_from(
                    self@.first_match(
                        current_token as int,
                        slot,
                        TokenClass::Flow,
                        marked(old(path)@),
                    ),
                    marked(old(path)@),
                ),
            ),
        decreases self@.room(marked(old(path)@)), 2int,
    {
        let found = match slot {
            Slot::Next => self.find_adjacent_token(current_token, path),
            Slot::Body => self.find_method_body_token(current_token, path),
            Slot::TruePath => self.find_true_token(current_token, path),
            Slot::FalsePath => self.find_false_token(current_token, path),
            Slot::Parameter => unreached(),
        };
        proof {
            self@.lemma_first_from(
                current_token as int,
                slot,
                TokenClass::Flow,
                marked(path@),
                0,
            );
        }
        match self.parse_flow(found, path) {
            Some(flow) => Some(Box::new(flow)),
            None => None,
        }
    }
}

/// Whether two batches are alike but for the tokens of `changed`: they hold
/// as many tokens, the same token wherever it is not one of `changed`, and
/// the same links between tokens that are not of `changed`.
pub open spec fn alike_but(one: Batch, other: Batch, changed: Set<int>) -> bool {
    &&& one.tokens.len() == other.tokens.len()
    &&& forall|at: int|
        0 <= at < one.tokens.len() && !changed.contains(at) ==> #[trigger] one.tokens[at]
            == other.tokens[at]
    &&& forall|from: int, slot: Slot, to: int|
        #![trigger one.linked(from, slot, to)]
        #![trigger other.linked(from, slot, to)]
        !changed.contains(from) && !changed.contains(to) ==> one.linked(from, slot, to)
            == other.linked(from, slot, to)
}

/// Whether no search for what fills `slot` of token `from` would take a
/// token of `changed`, in either batch.
pub open spec fn spares_slot(
    one: Batch,
    other: Batch,
    changed: Set<int>,
    from: int,
    slot: Slot,
) -> bool {
    forall|class: TokenClass, path: Set<int>, candidate: int|
        #![trigger one.accepts(from, slot, class, path, candidate)]
        #![trigger other.accepts(from, slot, class, path, candidate)]
        changed.contains(candidate) ==> !one.accepts(from, slot, class, path, candidate)
            && !other.accepts(from, slot, class, path, candidate)
}

/// Whether no search that token `from` makes would take a token of
/// `changed`, in either batch.
pub open spec fn spares(one: Batch, other: Batch, changed: Set<int>, from: int) -> bool {
    forall|slot: Slot| #[trigger] spares_slot(one, other, changed, from, slot)
}

/// Whether no token of `path` is one of `changed`.
pub open spec fn apart(path: Set<int>, changed: Set<int>) -> bool {
    forall|at: int| path.contains(at) ==> !changed.contains(at)
}

/// Whether the chain in `slot` of token `from` is found without regard to
/// the tokens of `changed`: neither the search for the chain nor a search
/// that a token of the chain makes would take one of them, in either batch.
pub open spec fn spares_chain(
    one: Batch,
    other: Batch,
    changed: Set<int>,
    from: int,
    slot: Slot,
    path: Set<int>,
) -> bool {
    &&& spares_slot(one, other, changed, from, slot)
    &&& forall|used: int| #[trigger]
        one.chain_tokens(one.first_match(from, slot, TokenClass::Flow, path), path).contains(used)
            ==> spares(one, other, changed, used)
}

/// In two batches that are alike but for some tokens, a search that would
/// take none of those tokens in either batch may take the same tokens in
/// both.
pub proof fn lemma_accepts_alike(
    one: Batch,
    other: Batch,
    changed: Set<int>,
    from: int,
    slot: Slot,
    class: TokenClass,
    path: Set<int>,
    candidate: int,
)
    requires
        alike_but(one, other, changed),
        !changed.contains(from),
        apart(path, changed),
        spares_slot(one, other, changed, from, slot),
    ensures
        one.accepts(from, slot, class, path, candidate) == other.accepts(
            from,
            slot,
            class,
            path,
            candidate,
        ),
{
    if changed.contains(candidate) {
        assert(!one.accepts(from, slot, class, path, candidate));
        assert(!other.accepts(from, slot, class, path, candidate));
    } else if 0 <= from < one.tokens.len() && 0 <= candidate < one.tokens.len() {
        let token = one.tokens[candidate];
        assert(other.tokens[candidate] == token);
        assert(other.tokens[from] == one.tokens[from]);
        if one.bars(path, token) {
            let above = choose|above: int|
                0 <= above < one.tokens.len() && path.contains(above) && #[trigger] one.tokens[above]
                    == token;
            assert(other.tokens[above] == token);
        }
        if other.bars(path, token) {
            let above = choose|above: int|
                0 <= above < other.tokens.len() && path.contains(above)
                    && #[trigger] other.tokens[above] == token;
            assert(one.tokens[above] == token);
        }
        assert(one.linked(from, slot, candidate) == other.linked(from, slot, candidate));
    }
}

/// In two batches that are alike but for some tokens, a search that would
/// take none of those tokens in either batch finds the same token in both.
pub proof fn lemma_search_alike(
    one: Batch,
    other: Batch,
    changed: Set<int>,
    from: int,
    slot: Slot,
    class: TokenClass,
    path: Set<int>,
)
    requires
        alike_but(one, other, changed),
        !changed.contains(from),
        apart(path, changed),
        spares_slot(one, other, changed, from, slot),
    ensures
        one.first_match(from, slot, class, path) == other.first_match(from, slot, class, path),
        one.first_match(from, slot, class, path) matches Some(found) ==> !changed.contains(found)
            && one.tokens[found] == other.tokens[found],
{
    lemma_first_from_alike(one, other, changed, from, slot, class, path, 0);
    one.lemma_first_match(from, slot, class, path);
}

/// From any point of the batch on, such a search finds the same token in
/// both batches.
pub proof fn lemma_first_from_alike(
    one: Batch,
    other: Batch,
    changed: Set<int>,
    from: int,
    slot: Slot,
    class: TokenClass,
    path: Set<int>,
    at: int,
)
    requires
        alike_but(one, other, changed),
        !changed.contains(from),
        apart(path, changed),
        spares_slot(one, other, changed, from, slot),
        0 <= at,
    ensures
        one.first_from(from, slot, class, path, at) == other.first_from(
            from,
            slot,
            class,
            path,
            at,
        ),
    decreases one.tokens.len() - at,
{
    if at < one.tokens.len() {
        lemma_accepts_alike(one, other, changed, from, slot, class, path, at);
        if !one.accepts(from, slot, class, path, at) {
            lemma_first_from_alike(one, other, changed, from, slot, class, path, at + 1);
        }
    }
}

/// A change to tokens leaves a chain as it was, if the search that finds
/// the chain, and the searches that the tokens of the chain make, would
/// take none of those tokens before the change or after it.
pub proof fn lemma_chain_spared(
    one: Batch,
    other: Batch,
    changed: Set<int>,
    from: int,
    slot: Slot,
    path: Set<int>,
)
    requires
        alike_but(one, other, changed),
        !changed.contains(from),
        apart(path, changed),
        spares_chain(one, other, changed, from, slot, path),
    ensures
        other.first_match(from, slot, TokenClass::Flow, path) == one.first_match(
            from,
            slot,
            TokenClass::Flow,
            path,
        ),
        other.chain_from(other.first_match(from, slot, TokenClass::Flow, path), path)
            == one.chain_from(one.first_match(from, slot, TokenClass::Flow, path), path),
    decreases one.room(path), 1int,
{
    lemma_search_alike(one, other, changed, from, slot, TokenClass::Flow, path);
    one.lemma_first_match(from, slot, TokenClass::Flow, path);
    let found = one.first_match(from, slot, TokenClass::Flow, path);
    if let Some(at) = found {
        assert(one.chain_tokens(found, path) == one.flow_tokens(at, path));
        lemma_flow_spared(one, other, changed, at, path);
    }
}

/// A change to tokens leaves the chain at a token as it was, if that token
/// is not changed and the searches that the tokens of the chain make would
/// take none of the changed tokens before the change or after it.
pub proof fn lemma_flow_spared(one: Batch, other: Batch, changed: Set<int>, at: int, path: Set<int>)
    requires
        alike_but(one, other, changed),
        0 <= at < one.tokens.len(),
        one.tokens[at].code.is_flow(),
        !path.contains(at),
        !changed.contains(at),
        apart(path, changed),
        forall|used: int| #[trigger]
            one.flow_tokens(at, path).contains(used) ==> spares(one, other, changed, used),
    ensures
        other.flow_at(at, path) == one.flow_at(at, path),
    decreases one.room(path), 0int,
{
    let below = path.insert(at);
    lemma_unmarked_shrinks(path, at, one.tokens.len() as int);
    assert(one.flow_tokens(at, path).contains(at));
    assert(spares(one, other, changed, at));
    assert(other.tokens[at] == one.tokens[at]);
    assert(apart(below, changed));
    assert forall|slot: Slot| #[trigger] one.hangs(at, slot) implies other.chain_from(
        other.first_match(at, slot, TokenClass::Flow, below),
        below,
    ) == one.chain_from(one.first_match(at, slot, TokenClass::Flow, below), below) by {
        assert(spares_slot(one, other, changed, at, slot));
        assert forall|used: int| #[trigger]
            one.chain_tokens(
                one.first_match(at, slot, TokenClass::Flow, below),
                below,
            ).contains(used) implies spares(one, other, changed, used) by {
            assert(one.hanging_tokens(at, slot, below).contains(used));
            assert(one.flow_tokens(at, path).contains(used));
        }
        assert(spares_chain(one, other, changed, at, slot, below));
        lemma_chain_spared(one, other, changed, at, slot, below);
    }
    assert(spares_slot(one, other, changed, at, Slot::Parameter));
    lemma_search_alike(
        one,
        other,
        changed,
        at,
        Slot::Parameter,
        TokenClass::Condition,
        Set::empty(),
    );
    lemma_search_alike(one, other, changed, at, Slot::Parameter, TokenClass::Value, Set::empty());
    one.lemma_first_match(at, Slot::Parameter, TokenClass::Condition, Set::empty());
    one.lemma_first_match(at, Slot::Parameter, TokenClass::Value, Set::empty());
    let code = one.tokens[at].code;
    if code.is_command() {
        assert(one.hangs(at, Slot::Next));
    } else if code == TokenCode::Blocked {
        assert(one.hangs(at, Slot::TruePath));
        assert(one.hangs(at, Slot::FalsePath));
    } else {
        assert(one.hangs(at, Slot::Body));
        assert(one.hangs(at, Slot::Next));
    }
}

/// A change to tokens on one side of a branch leaves the other side as it
/// was. The chain that the branch takes when its test holds stays the same
/// if it is found without regard to the changed tokens, and so does the
/// chain that the branch takes when its test fails.
pub proof fn lemma_branch_sides_change_apart(
    one: Batch,
    other: Batch,
    changed: Set<int>,
    at: int,
    below: Set<int>,
)
    requires
        alike_but(one, other, changed),
        0 <= at < one.tokens.len(),
        !changed.contains(at),
        apart(below, changed),
    ensures
        spares_chain(one, other, changed, at, Slot::TruePath, below) ==> other.conditional_at(
            at,
            below,
        ).next == one.conditional_at(at, below).next,
        spares_chain(one, other, changed, at, Slot::FalsePath, below) ==> other.conditional_at(
            at,
            below,
        ).kind == one.conditional_at(at, below).kind,
{
    if spares_chain(one, other, changed, at, Slot::TruePath, below) {
        lemma_chain_spared(one, other, changed, at, Slot::TruePath, below);
    }
    if spares_chain(one, other, changed, at, Slot::FalsePath, below) {
        lemma_chain_spared(one, other, changed, at, Slot::FalsePath, below);
    }
}

/// Parsing goes by the batch alone: two parsers that hold the same tokens
/// and the same links spell the same program, now and at every later call.
pub proof fn lemma_parse_is_determined(one: Parser, other: Parser)
    requires
        one@ == other@,
    ensures
        one@.program() == other@.program(),
{
}

} // verus!
