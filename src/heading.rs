use vstd::prelude::*;

verus! {

/// The direction of travel. `Up` decreases `y`, `Down` increases it.
#[derive(Clone, Copy, Debug, PartialEq, Eq, Structural)]
pub enum Heading {
    Left,
    Right,
    Up,
    Down,
}

impl Heading {
    /// The heading that points the other way.
    pub open spec fn opposite_spec(self) -> Heading {
        match self {
            Heading::Left => Heading::Right,
            Heading::Right => Heading::Left,
            Heading::Up => Heading::Down,
            Heading::Down => Heading::Up,
        }
    }

    /// Horizontal component of the unit displacement.
    pub open spec fn dx(self) -> int {
        match self {
            Heading::Left => -1,
            Heading::Right => 1,
            _ => 0,
        }
    }

    /// Vertical component of the unit displacement.
    pub open spec fn dy(self) -> int {
        match self {
            Heading::Up => -1,
            Heading::Down => 1,
            _ => 0,
        }
    }

    pub fn opposite(self) -> (r: Heading)
        ensures
            r == self.opposite_spec(),
    {
        match self {
            Heading::Left => Heading::Right,
            Heading::Right => Heading::Left,
            Heading::Up => Heading::Down,
            Heading::Down => Heading::Up,
        }
    }
}

} // verus!
