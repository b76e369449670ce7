//! What the keys do.

use vstd::prelude::*;

verus! {

/// What a human can ask for with one key.
#[derive(Clone, Copy, Debug, PartialEq, Eq, Structural)]
pub enum KeyAction {
    PlaceUp,
    PlaceDown,
    CancelUp,
    CancelDown,
}

/// What a key press leads to.
#[derive(Clone, Copy, Debug, PartialEq, Eq, Structural)]
pub enum KeyDecision {
    /// The price feed has not delivered anything yet.
    NoSnapshot,
    /// The key does nothing.
    Ignore,
    Act(KeyAction),
}

/// The four keys and what they do.
pub open spec fn action_of(key: char) -> Option<KeyAction> {
    if key == '+' {
        Some(KeyAction::PlaceUp)
    } else if key == '-' {
        Some(KeyAction::PlaceDown)
    } else if key == '*' {
        Some(KeyAction::CancelUp)
    } else if key == '/' {
        Some(KeyAction::CancelDown)
    } else {
        None
    }
}

/// `+` places an Up batch, `-` a Down batch, `*` cancels Up orders, `/` cancels Down orders.
pub fn key_action(key: char) -> (action: Option<KeyAction>)
    ensures
        action == action_of(key),
{
    if key == '+' {
        Some(KeyAction::PlaceUp)
    } else if key == '-' {
        Some(KeyAction::PlaceDown)
    } else if key == '*' {
        Some(KeyAction::CancelUp)
    } else if key == '/' {
        Some(KeyAction::CancelDown)
    } else {
        None
    }
}

/// What a key press leads to, given whether there is a snapshot to act on.
pub fn handle_key(key: char, has_snapshot: bool) -> (decision: KeyDecision)
    ensures
        decision == if !has_snapshot {
            KeyDecision::NoSnapshot
        } else {
            match action_of(key) {
                Some(action) => KeyDecision::Act(action),
                None => KeyDecision::Ignore,
            }
        },
{
    if !has_snapshot {
        return KeyDecision::NoSnapshot;
    }
    match key_action(key) {
        Some(action) => KeyDecision::Act(action),
        None => KeyDecision::Ignore,
    }
}

/// No two keys ask for the same thing.
pub proof fn keys_are_distinct(first: char, second: char)
    requires
        action_of(first) is Some,
        action_of(first) == action_of(second),
    ensures
        first == second,
{
}

/// Plus and minus place on Up and on Down, times and divide cancel there, and no other key does
/// anything.
pub proof fn each_key_has_its_side(key: char)
    ensures
        action_of(key) == Some(KeyAction::PlaceUp) <==> key == '+',
        action_of(key) == Some(KeyAction::PlaceDown) <==> key == '-',
        action_of(key) == Some(KeyAction::CancelUp) <==> key == '*',
        action_of(key) == Some(KeyAction::CancelDown) <==> key == '/',
        action_of(key) is None <==> key != '+' && key != '-' && key != '*' && key != '/',
{
}

} // verus!
