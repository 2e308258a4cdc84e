use vstd::prelude::*;

use crate::text::str_eq;

verus! {

/// The closed vocabulary of plays that a strategy table can recommend.
#[derive(Clone, Copy, PartialEq, Eq, Structural, Debug)]
pub enum PlayerAction {
    Hit,
    Stand,
    DoubleOrHit,
    DoubleOrStand,
    Split,
    SurrenderOrHit,
    SurrenderOrStand,
    SplitOrHit,
}

/// The table code that stands for each action; every action has exactly one.
pub open spec fn spec_action_code(a: PlayerAction) -> Seq<char> {
    match a {
        PlayerAction::Hit => "H"@,
        PlayerAction::Stand => "S"@,
        PlayerAction::DoubleOrHit => "D"@,
        PlayerAction::DoubleOrStand => "Ds"@,
        PlayerAction::Split => "P"@,
        PlayerAction::SurrenderOrHit => "Su"@,
        PlayerAction::SurrenderOrStand => "Rs"@,
        PlayerAction::SplitOrHit => "Ph"@,
    }
}

/// The action denoted by a table code, if the code is recognized.
pub open spec fn spec_decode_action(s: Seq<char>) -> Option<PlayerAction> {
    if s == "H"@ {
        Some(PlayerAction::Hit)
    } else if s == "S"@ {
        Some(PlayerAction::Stand)
    } else if s == "D"@ {
        Some(PlayerAction::DoubleOrHit)
    } else if s == "Ds"@ {
        Some(PlayerAction::DoubleOrStand)
    } else if s == "P"@ {
        Some(PlayerAction::Split)
    } else if s == "Su"@ {
        Some(PlayerAction::SurrenderOrHit)
    } else if s == "Rs"@ {
        Some(PlayerAction::SurrenderOrStand)
    } else if s == "Ph"@ {
        Some(PlayerAction::SplitOrHit)
    } else {
        None
    }
}

impl PlayerAction {
    /// The code under which this action appears in strategy tables.
    pub fn to_code(&self) -> (r: &'static str)
        ensures
            r@ == spec_action_code(*self),
    {
        match self {
            PlayerAction::Hit => "H",
            PlayerAction::Stand => "S",
            PlayerAction::DoubleOrHit => "D",
            PlayerAction::DoubleOrStand => "Ds",
            PlayerAction::Split => "P",
            PlayerAction::SurrenderOrHit => "Su",
            PlayerAction::SurrenderOrStand => "Rs",
            PlayerAction::SplitOrHit => "Ph",
        }
    }

    /// Decodes a table code; fails exactly on unrecognized codes.
    pub fn from_code(code: &str) -> (r: Option<PlayerAction>)
        ensures
            r == spec_decode_action(code@),
    {
        if str_eq(code, "H") {
            Some(PlayerAction::Hit)
        } else if str_eq(code, "S") {
            Some(PlayerAction::Stand)
        } else if str_eq(code, "D") {
            Some(PlayerAction::DoubleOrHit)
        } else if str_eq(code, "Ds") {
            Some(PlayerAction::DoubleOrStand)
        } else if str_eq(code, "P") {
            Some(PlayerAction::Split)
        } else if str_eq(code, "Su") {
            Some(PlayerAction::SurrenderOrHit)
        } else if str_eq(code, "Rs") {
            Some(PlayerAction::SurrenderOrStand)
        } else if str_eq(code, "Ph") {
            Some(PlayerAction::SplitOrHit)
        } else {
            None
        }
    }
}

/// The palette the tables color action codes with; the terminal collaborator
/// maps these to its own color type.
#[derive(Clone, Copy, PartialEq, Eq, Structural, Debug)]
pub enum ActionColor {
    Red,
    Blue,
    LightBlue,
    Yellow,
    LightCyan,
    LightMagenta,
    Magenta,
}

/// The color each action code is shown in; unknown codes fall back to red.
pub open spec fn spec_action_color(s: Seq<char>) -> ActionColor {
    if s == "H"@ {
        ActionColor::Red
    } else if s == "D"@ || s == "Dh"@ {
        ActionColor::Blue
    } else if s == "Ds"@ {
        ActionColor::LightBlue
    } else if s == "S"@ {
        ActionColor::Yellow
    } else if s == "P"@ {
        ActionColor::LightCyan
    } else if s == "Su"@ || s == "Rs"@ || s == "Rp"@ {
        ActionColor::LightMagenta
    } else if s == "Rh"@ {
        ActionColor::Magenta
    } else {
        ActionColor::Red
    }
}

/// The color an action code is shown in.
pub fn action_color(action: &str) -> (r: ActionColor)
    ensures
        r == spec_action_color(action@),
{
    if str_eq(action, "H") {
        ActionColor::Red
    } else if str_eq(action, "D") || str_eq(action, "Dh") {
        ActionColor::Blue
    } else if str_eq(action, "Ds") {
        ActionColor::LightBlue
    } else if str_eq(action, "S") {
        ActionColor::Yellow
    } else if str_eq(action, "P") {
        ActionColor::LightCyan
    } else if str_eq(action, "Su") || str_eq(action, "Rs") || str_eq(action, "Rp") {
        ActionColor::LightMagenta
    } else if str_eq(action, "Rh") {
        ActionColor::Magenta
    } else {
        ActionColor::Red
    }
}

/// Law: encoding any action and decoding that code returns the same action.
pub proof fn lemma_action_code_round_trip(a: PlayerAction)
    ensures
        spec_decode_action(spec_action_code(a)) == Some(a),
{
    reveal_strlit("H");
    reveal_strlit("S");
    reveal_strlit("D");
    reveal_strlit("Ds");
    reveal_strlit("P");
    reveal_strlit("Su");
    reveal_strlit("Rs");
    reveal_strlit("Ph");
    assert("H"@.len() == 1 && "H"@[0] == 'H');
    assert("S"@.len() == 1 && "S"@[0] == 'S');
    assert("D"@.len() == 1 && "D"@[0] == 'D');
    assert("P"@.len() == 1 && "P"@[0] == 'P');
    assert("Ds"@.len() == 2 && "Ds"@[0] == 'D' && "Ds"@[1] == 's');
    assert("Su"@.len() == 2 && "Su"@[0] == 'S' && "Su"@[1] == 'u');
    assert("Rs"@.len() == 2 && "Rs"@[0] == 'R' && "Rs"@[1] == 's');
    assert("Ph"@.len() == 2 && "Ph"@[0] == 'P' && "Ph"@[1] == 'h');
    match a {
        PlayerAction::Hit => assert(spec_decode_action("H"@) == Some(PlayerAction::Hit)),
        PlayerAction::Stand => assert(spec_decode_action("S"@) == Some(PlayerAction::Stand)),
        PlayerAction::DoubleOrHit => assert(spec_decode_action("D"@) == Some(
            PlayerAction::DoubleOrHit,
        )),
        PlayerAction::DoubleOrStand => assert(spec_decode_action("Ds"@) == Some(
            PlayerAction::DoubleOrStand,
        )),
        PlayerAction::Split => assert(spec_decode_action("P"@) == Some(PlayerAction::Split)),
        PlayerAction::SurrenderOrHit => assert(spec_decode_action("Su"@) == Some(
            PlayerAction::SurrenderOrHit,
        )),
        PlayerAction::SurrenderOrStand => assert(spec_decode_action("Rs"@) == Some(
            PlayerAction::SurrenderOrStand,
        )),
        PlayerAction::SplitOrHit => assert(spec_decode_action("Ph"@) == Some(
            PlayerAction::SplitOrHit,
        )),
    }
}

} // verus!
