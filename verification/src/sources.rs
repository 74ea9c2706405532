//! Where the field sources start.
//!
//! A source carries a signed strength and circles a fixed centre. Both stay
//! as they are for the whole run, and so does the radius of the circle, which
//! the starting position sets. The display starts from two sources, a strong
//! one that turns the field one way and a weak one that turns it the other.

use vstd::prelude::*;
use crate::grid::{lattice, GridPoint, ARROW_INTERVAL, HEIGHT, WIDTH};

verus! {

/// The handedness that the sign of a strength gives to the field around a source.
#[derive(Clone, Copy, Debug, PartialEq, Eq, Structural)]
pub enum Polarity {
    Negative,
    Neutral,
    Positive,
}

/// The polarity of a strength: its sign.
pub open spec fn polarity_of(strength: int) -> Polarity {
    if strength < 0 {
        Polarity::Negative
    } else if strength == 0 {
        Polarity::Neutral
    } else {
        Polarity::Positive
    }
}

/// The magnitude of a strength.
pub open spec fn magnitude(strength: int) -> int {
    if strength < 0 {
        -strength
    } else {
        strength
    }
}

/// A source as it is put on the plane: where it starts, how strong it is and
/// the point it circles.
#[derive(Clone, Copy, Debug, PartialEq, Eq, Structural)]
pub struct SourcePlacement {
    pub position: GridPoint,
    pub strength: i32,
    pub orbit_center: GridPoint,
}

impl SourcePlacement {
    /// Tells which way the source turns the field, for the display to mark it.
    pub fn polarity(&self) -> (p: Polarity)
        ensures
            p == polarity_of(self.strength as int),
    {
        if self.strength < 0 {
            Polarity::Negative
        } else if self.strength == 0 {
            Polarity::Neutral
        } else {
            Polarity::Positive
        }
    }
}

/// What a starting layout has to offer for the field to be worth looking at:
/// two sources of opposite polarity and of different magnitude, each on a
/// circle of its own, and no centre under a source.
pub open spec fn layout_well_formed(layout: Seq<SourcePlacement>) -> bool {
    &&& layout.len() == 2
    &&& polarity_of(layout[0].strength as int) != Polarity::Neutral
    &&& polarity_of(layout[1].strength as int) != Polarity::Neutral
    &&& polarity_of(layout[0].strength as int) != polarity_of(layout[1].strength as int)
    &&& magnitude(layout[0].strength as int) != magnitude(layout[1].strength as int)
    &&& layout[0].orbit_center != layout[1].orbit_center
    &&& forall|i: int, j: int|
        0 <= i < 2 && 0 <= j < 2 ==> (#[trigger] layout[i]).orbit_center != (
        #[trigger] layout[j]).position
}

/// The layout that the display starts from.
pub open spec fn starting_layout() -> Seq<SourcePlacement> {
    seq![
        SourcePlacement {
            position: GridPoint { x: (-50) as i32, y: 0 },
            strength: (-10) as i32,
            orbit_center: GridPoint { x: (-200) as i32, y: 0 },
        },
        SourcePlacement {
            position: GridPoint { x: 250, y: 0 },
            strength: 1,
            orbit_center: GridPoint { x: 200, y: 0 },
        },
    ]
}

/// Builds the two sources that the display starts from, in the order in which
/// they are kept and summed from then on.
pub fn starting_sources() -> (sources: Vec<SourcePlacement>)
    ensures
        sources@ == starting_layout(),
        layout_well_formed(sources@),
{
    let mut sources: Vec<SourcePlacement> = Vec::new();
    sources.push(
        SourcePlacement {
            position: GridPoint { x: -50, y: 0 },
            strength: -10,
            orbit_center: GridPoint { x: -200, y: 0 },
        },
    );
    sources.push(
        SourcePlacement {
            position: GridPoint { x: 250, y: 0 },
            strength: 1,
            orbit_center: GridPoint { x: 200, y: 0 },
        },
    );
    proof {
        assert(sources@ =~= starting_layout());
    }
    sources
}

/// No source starts on a sample point of the display: the sources start on
/// the horizontal axis, and no row of the lattice runs along it.
pub proof fn lemma_starting_sources_off_lattice(n: int, i: int)
    requires
        0 <= n < lattice(WIDTH as int, HEIGHT as int, ARROW_INTERVAL as int).len(),
        0 <= i < starting_layout().len(),
    ensures
        lattice(WIDTH as int, HEIGHT as int, ARROW_INTERVAL as int)[n] != starting_layout()[i].position@,
{
    let row = n % 25;
    assert(lattice(WIDTH as int, HEIGHT as int, ARROW_INTERVAL as int)[n].1 == -250 + row * 20);
    assert(starting_layout()[i].position@.1 == 0);
}

} // verus!
