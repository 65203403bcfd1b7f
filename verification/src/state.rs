use vstd::prelude::*;

verus! {

/// Where an applicant stands: freshly submitted, older than a day, or unknown
/// (shown as "none").
#[derive(Debug, Clone, Copy, PartialEq, Eq, Structural)]
pub enum State {
    Fresh,
    Old,
    Unknown,
}

/// The code a fresh application carries in the database.
pub const FRESH_CODE: i32 = 1;

/// The code an old application carries in the database.
pub const OLD_CODE: i32 = 2;

/// The state that a database code stands for.
pub open spec fn state_of_code(code: int) -> State {
    if code == 1 {
        State::Fresh
    } else if code == 2 {
        State::Old
    } else {
        State::Unknown
    }
}

/// The text under which a state is shown.
pub open spec fn state_label(st: State) -> Seq<char> {
    match st {
        State::Fresh => seq!['f', 'r', 'e', 's', 'h'],
        State::Old => seq!['o', 'l', 'd'],
        State::Unknown => seq!['n', 'o', 'n', 'e'],
    }
}

/// The code that an admin's change turns a code into: fresh and old swap,
/// any other code is left as it is (`None`: nothing to write).
pub open spec fn toggled_code(code: int) -> Option<int> {
    if code == 1 {
        Some(2)
    } else if code == 2 {
        Some(1)
    } else {
        None
    }
}

impl State {
    /// Reads a database code.
    pub fn from_code(code: i32) -> (st: State)
        ensures
            st == state_of_code(code as int),
    {
        if code == FRESH_CODE {
            State::Fresh
        } else if code == OLD_CODE {
            State::Old
        } else {
            State::Unknown
        }
    }

    /// The text under which the state is shown.
    pub fn as_str(&self) -> (s: &'static str)
        ensures
            s@ == state_label(*self),
    {
        let s = match self {
            State::Fresh => "fresh",
            State::Old => "old",
            State::Unknown => "none",
        };
        proof {
            reveal_strlit("fresh");
            reveal_strlit("old");
            reveal_strlit("none");
        }
        s
    }
}

/// The state code that an admin's change writes back, if any.
pub fn toggle_state_code(code: i32) -> (next: Option<i32>)
    ensures
        match next {
            Some(c) => toggled_code(code as int) == Some(c as int),
            None => toggled_code(code as int) is None,
        },
{
    if code == FRESH_CODE {
        Some(OLD_CODE)
    } else if code == OLD_CODE {
        Some(FRESH_CODE)
    } else {
        None
    }
}

/// Changing the state of a fresh or old application twice gives back the
/// state it had; an application in any other state is never changed.
pub proof fn lemma_toggle_twice(code: int)
    ensures
        (code == 1 || code == 2) ==> (toggled_code(code) matches Some(c) && toggled_code(c)
            == Some(code)),
        !(code == 1 || code == 2) ==> toggled_code(code) is None,
{
}

/// A change of state never leaves the pair of known states: it maps fresh to
/// old and old to fresh.
pub proof fn lemma_toggle_swaps(code: int)
    requires
        code == 1 || code == 2,
    ensures
        toggled_code(code) matches Some(c) && state_of_code(c) != state_of_code(code)
            && state_of_code(c) != State::Unknown,
{
}

} // verus!
