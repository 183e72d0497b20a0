//! The tokens that a program is laid out with.

use vstd::prelude::*;

verus! {

/// What is printed on a token. Each code stands for one number, the one
/// that a scanner reads off the token.
#[derive(Clone, Copy, Debug, PartialEq, Eq, Structural)]
pub enum TokenCode {
    Start,
    // Flow
    // Conditional
    Blocked,
    // Commands
    MoveBackwards,
    MoveForwards,
    Shoot,
    TurnLeft,
    TurnRight,
    // Integer Methods
    Repeat,
    // Boolean Methods
    While,
    // Integer values
    Value1,
    Value2,
    Value3,
    Value4,
    Value5,
    Value6,
    Value7,
    Value8,
    ValueInfinite,
    // Conditions
    IsBlocked,
    IsPathClear,
    // An undefined token value: printed on no token, so no entry of a scan
    // becomes a token with it
    Undefined,
}

impl TokenCode {
    /// The number that a scanner reads off a token with this code.
    pub open spec fn number(self) -> u32 {
        match self {
            TokenCode::Start => 61,
            TokenCode::Blocked => 31,
            TokenCode::MoveBackwards => 47,
            TokenCode::MoveForwards => 55,
            TokenCode::Shoot => 59,
            TokenCode::TurnLeft => 79,
            TokenCode::TurnRight => 87,
            TokenCode::Repeat => 91,
            TokenCode::While => 155,
            TokenCode::Value1 => 93,
            TokenCode::Value2 => 103,
            TokenCode::Value3 => 107,
            TokenCode::Value4 => 109,
            TokenCode::Value5 => 115,
            TokenCode::Value6 => 117,
            TokenCode::Value7 => 121,
            TokenCode::Value8 => 143,
            TokenCode::ValueInfinite => 151,
            TokenCode::IsBlocked => 157,
            TokenCode::IsPathClear => 167,
            TokenCode::Undefined => 0,
        }
    }

    /// Holds of the codes that take a place in a chain: the commands, the
    /// branch and the two loops.
    pub open spec fn is_flow(self) -> bool {
        self.is_command() || self == TokenCode::Blocked || self == TokenCode::Repeat || self
            == TokenCode::While
    }

    /// Holds of the five commands.
    pub open spec fn is_command(self) -> bool {
        self == TokenCode::Shoot || self == TokenCode::TurnLeft || self == TokenCode::TurnRight
            || self == TokenCode::MoveForwards || self == TokenCode::MoveBackwards
    }

    /// Holds of the codes that stand for a loop's count.
    pub open spec fn is_value(self) -> bool {
        self == TokenCode::Value1 || self == TokenCode::Value2 || self == TokenCode::Value3
            || self == TokenCode::Value4 || self == TokenCode::Value5 || self
            == TokenCode::Value6 || self == TokenCode::Value7 || self == TokenCode::Value8
            || self == TokenCode::ValueInfinite
    }

    /// Holds of the codes that stand for a loop's condition.
    pub open spec fn is_condition(self) -> bool {
        self == TokenCode::IsBlocked || self == TokenCode::IsPathClear
    }

    /// The number that stands for the code.
    pub fn value(&self) -> (number: u32)
        ensures
            number == self.number(),
    {
        match self {
            TokenCode::Start => 61,
            TokenCode::Blocked => 31,
            TokenCode::MoveBackwards => 47,
            TokenCode::MoveForwards => 55,
            TokenCode::Shoot => 59,
            TokenCode::TurnLeft => 79,
            TokenCode::TurnRight => 87,
            TokenCode::Repeat => 91,
            TokenCode::While => 155,
            TokenCode::Value1 => 93,
            TokenCode::Value2 => 103,
            TokenCode::Value3 => 107,
            TokenCode::Value4 => 109,
            TokenCode::Value5 => 115,
            TokenCode::Value6 => 117,
            TokenCode::Value7 => 121,
            TokenCode::Value8 => 143,
            TokenCode::ValueInfinite => 151,
            TokenCode::IsBlocked => 157,
            TokenCode::IsPathClear => 167,
            TokenCode::Undefined => 0,
        }
    }

    /// The code that a number stands for, if it stands for one.
    pub open spec fn with_number(number: u32) -> Option<TokenCode> {
        if number == 61 {
            Some(TokenCode::Start)
        } else if number == 31 {
            Some(TokenCode::Blocked)
        } else if number == 47 {
            Some(TokenCode::MoveBackwards)
        } else if number == 55 {
            Some(TokenCode::MoveForwards)
        } else if number == 59 {
            Some(TokenCode::Shoot)
        } else if number == 79 {
            Some(TokenCode::TurnLeft)
        } else if number == 87 {
            Some(TokenCode::TurnRight)
        } else if number == 91 {
            Some(TokenCode::Repeat)
        } else if number == 155 {
            Some(TokenCode::While)
        } else if number == 93 {
            Some(TokenCode::Value1)
        } else if number == 103 {
            Some(TokenCode::Value2)
        } else if number == 107 {
            Some(TokenCode::Value3)
        } else if number == 109 {
            Some(TokenCode::Value4)
        } else if number == 115 {
            Some(TokenCode::Value5)
        } else if number == 117 {
            Some(TokenCode::Value6)
        } else if number == 121 {
            Some(TokenCode::Value7)
        } else if number == 143 {
            Some(TokenCode::Value8)
        } else if number == 151 {
            Some(TokenCode::ValueInfinite)
        } else if number == 157 {
            Some(TokenCode::IsBlocked)
        } else if number == 167 {
            Some(TokenCode::IsPathClear)
        } else if number == 0 {
            Some(TokenCode::Undefined)
        } else {
            None
        }
    }

    /// The code that a number stands for, if it stands for one.
    pub fn from_value(number: u32) -> (code: Option<TokenCode>)
        ensures
            code == TokenCode::with_number(number),
            match code {
                Some(found) => found.number() == number,
                None => forall|other: TokenCode| other.number() != number,
            },
    {
        match number {
            61 => Some(TokenCode::Start),
            31 => Some(TokenCode::Blocked),
            47 => Some(TokenCode::MoveBackwards),
            55 => Some(TokenCode::MoveForwards),
            59 => Some(TokenCode::Shoot),
            79 => Some(TokenCode::TurnLeft),
            87 => Some(TokenCode::TurnRight),
            91 => Some(TokenCode::Repeat),
            155 => Some(TokenCode::While),
            93 => Some(TokenCode::Value1),
            103 => Some(TokenCode::Value2),
            107 => Some(TokenCode::Value3),
            109 => Some(TokenCode::Value4),
            115 => Some(TokenCode::Value5),
            117 => Some(TokenCode::Value6),
            121 => Some(TokenCode::Value7),
            143 => Some(TokenCode::Value8),
            151 => Some(TokenCode::ValueInfinite),
            157 => Some(TokenCode::IsBlocked),
            167 => Some(TokenCode::IsPathClear),
            0 => Some(TokenCode::Undefined),
            _ => None,
        }
    }
}

/// A code is the one that its number stands for, and a number stands for
/// no code but one that has it.
pub proof fn lemma_number_names_code(code: TokenCode, number: u32)
    ensures
        TokenCode::with_number(code.number()) == Some(code),
        TokenCode::with_number(number) == Some(code) ==> code.number() == number,
{
}

/// No two codes stand for the same number.
pub proof fn lemma_numbers_differ(one: TokenCode, other: TokenCode)
    requires
        one.number() == other.number(),
    ensures
        one == other,
{
}

/// Holds of the entries of a scan that are tokens: those that carry a
/// number which stands for a code that can be printed on a token. The code
/// `Undefined` is printed on none, so its number marks no token.
pub open spec fn is_known(numbers: Seq<Option<u32>>, at: int) -> bool {
    &&& 0 <= at < numbers.len()
    &&& numbers[at] matches Some(number) && exists|code: TokenCode|
        code.number() == number && code != TokenCode::Undefined
}

/// The entries of a scan that are tokens, in the order of the scan: each
/// with its position in the scan and the code that its number stands for.
/// An entry without a number is left out, and so is one with a number that
/// stands for no code or for the code `Undefined`.
pub fn recognised(numbers: &Vec<Option<u32>>) -> (kept: Vec<(usize, TokenCode)>)
    ensures
        forall|k: int|
            0 <= k < kept@.len() ==> (#[trigger] kept@[k]).0 < numbers@.len()
                && numbers@[kept@[k].0 as int] == Some(kept@[k].1.number()) && kept@[k].1
                != TokenCode::Undefined,
        forall|k: int, l: int| 0 <= k < l < kept@.len() ==> kept@[k].0 < kept@[l].0,
        forall|at: int|
            is_known(numbers@, at) ==> exists|k: int|
                0 <= k < kept@.len() && (#[trigger] kept@[k]).0 == at,
{
    let mut kept: Vec<(usize, TokenCode)> = Vec::new();
    let mut at: usize = 0;
    while at < numbers.len()
        invariant
            at <= numbers@.len(),
            forall|k: int|
                0 <= k < kept@.len() ==> (#[trigger] kept@[k]).0 < at && numbers@[kept@[k].0 as int]
                    == Some(kept@[k].1.number()) && kept@[k].1 != TokenCode::Undefined,
            forall|k: int, l: int| 0 <= k < l < kept@.len() ==> kept@[k].0 < kept@[l].0,
            forall|seen: int|
                seen < at && is_known(numbers@, seen) ==> exists|k: int|
                    0 <= k < kept@.len() && (#[trigger] kept@[k]).0 == seen,
        decreases numbers@.len() - at,
    {
        if let Some(number) = numbers[at] {
            if let Some(code) = TokenCode::from_value(number) {
                if code != TokenCode::Undefined {
                    let ghost before = kept@;
                    kept.push((at, code));
                    assert forall|seen: int|
                        seen < at + 1 && is_known(numbers@, seen) implies exists|k: int|
                        0 <= k < kept@.len() && (#[trigger] kept@[k]).0 == seen by {
                        if seen < at {
                            let k = choose|k: int|
                                0 <= k < before.len() && (#[trigger] before[k]).0 == seen;
                            assert(kept@[k] == before[k]);
                        } else {
                            assert(kept@[kept@.len() - 1].0 == seen);
                        }
                    }
                }
            }
        }
        at += 1;
    }
    kept
}

/// One token as it was seen: what is printed on it, and where it lies.
///
/// `place` says no more than which tokens lie alike: two tokens of a batch
/// have the same `place` exactly if they were seen with the same size, at
/// the same point and turned the same way.
#[derive(Clone, Copy, Debug, PartialEq, Eq, Structural)]
pub struct Token {
    pub code: TokenCode,
    pub place: usize,
}

impl Token {
    /// A token with the given code at the given place.
    pub fn new(code: TokenCode, place: usize) -> (token: Self)
        ensures
            token == (Token { code, place }),
    {
        Self { code, place }
    }

    /// Is part of the regular flow of the program. In other words, has a
    /// previous and next token.
    pub fn is_flow(&self) -> (yes: bool)
        ensures
            yes == self.code.is_flow(),
    {
        match self.code {
            TokenCode::Blocked
            | TokenCode::MoveBackwards
            | TokenCode::MoveForwards
            | TokenCode::Shoot
            | TokenCode::TurnLeft
            | TokenCode::TurnRight
            | TokenCode::Repeat
            | TokenCode::While => true,
            _ => false,
        }
    }

    /// Is one of the five commands.
    pub fn is_command(&self) -> (yes: bool)
        ensures
            yes == self.code.is_command(),
    {
        match self.code {
            TokenCode::Shoot
            | TokenCode::TurnLeft
            | TokenCode::TurnRight
            | TokenCode::MoveForwards
            | TokenCode::MoveBackwards => true,
            _ => false,
        }
    }

    /// Represents a positive integer value.
    pub fn is_value(&self) -> (yes: bool)
        ensures
            yes == self.code.is_value(),
    {
        match self.code {
            TokenCode::Value1
            | TokenCode::Value2
            | TokenCode::Value3
            | TokenCode::Value4
            | TokenCode::Value5
            | TokenCode::Value6
            | TokenCode::Value7
            | TokenCode::Value8
            | TokenCode::ValueInfinite => true,
            _ => false,
        }
    }

    /// A method with a condition.
    pub fn is_condition(&self) -> (yes: bool)
        ensures
            yes == self.code.is_condition(),
    {
        match self.code {
            TokenCode::IsBlocked | TokenCode::IsPathClear => true,
            _ => false,
        }
    }
}

} // verus!
