//! The keys that steer the ship.
use vstd::prelude::*;

verus! {

/// Two keys bound to the same action; either one triggers it.
#[derive(Clone, Copy, Debug, PartialEq, Eq, Structural)]
pub struct KeyPair {
    pub primary: bool,
    pub alternate: bool,
}

impl KeyPair {
    /// Whether at least one of the two keys is held.
    pub open spec fn held(self) -> bool {
        self.primary || self.alternate
    }

    /// Tells whether at least one of the two keys is held.
    pub fn is_held(&self) -> (b: bool)
        ensures
            b == self.held(),
    {
        self.primary || self.alternate
    }
}

/// The keys held during one frame.
#[derive(Clone, Copy, Debug, PartialEq, Eq, Structural)]
pub struct Input {
    pub left: KeyPair,
    pub right: KeyPair,
    pub up: KeyPair,
    pub down: KeyPair,
    pub fire: bool,
}

/// The pull of two opposed actions on one axis: -1, 0 or +1. Opposed keys
/// held together cancel.
pub open spec fn pull(negative: bool, positive: bool) -> int {
    (if positive { 1int } else { 0int }) - (if negative { 1int } else { 0int })
}

impl Input {
    /// The pull on the horizontal axis.
    pub open spec fn pull_x(self) -> int {
        pull(self.left.held(), self.right.held())
    }

    /// The pull on the vertical axis.
    pub open spec fn pull_y(self) -> int {
        pull(self.down.held(), self.up.held())
    }

    /// An input with no key held.
    pub fn idle() -> (i: Input)
        ensures
            i.pull_x() == 0,
            i.pull_y() == 0,
            !i.fire,
            i == (Input {
                left: KeyPair { primary: false, alternate: false },
                right: KeyPair { primary: false, alternate: false },
                up: KeyPair { primary: false, alternate: false },
                down: KeyPair { primary: false, alternate: false },
                fire: false,
            }),
    {
        let off = KeyPair { primary: false, alternate: false };
        Input { left: off, right: off, up: off, down: off, fire: false }
    }

    /// Computes the pull on the horizontal axis.
    pub fn axis_x(&self) -> (p: i8)
        ensures
            p == self.pull_x(),
    {
        pull_exec(self.left.is_held(), self.right.is_held())
    }

    /// Computes the pull on the vertical axis.
    pub fn axis_y(&self) -> (p: i8)
        ensures
            p == self.pull_y(),
    {
        pull_exec(self.down.is_held(), self.up.is_held())
    }
}

fn pull_exec(negative: bool, positive: bool) -> (p: i8)
    ensures
        p == pull(negative, positive),
{
    let up: i8 = if positive { 1 } else { 0 };
    let down: i8 = if negative { 1 } else { 0 };
    up - down
}

} // verus!
