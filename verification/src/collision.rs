//! How a flight ends: the outcome of touching the boundary of the map, and the
//! rule that names it.

use vstd::prelude::*;

verus! {

/// A measured quantity, held as an integer that orders exactly as the
/// quantity does. The library compares measures; it never computes with them.
pub type Measure = i64;

/// The outcome of a flight that has touched the boundary of the map.
#[derive(Clone, Copy, Debug, PartialEq, Eq, Structural)]
pub enum Landing {
    /// On the pad, slow enough and upright.
    Correct,
    /// On sloped ground or on a wall or the ceiling of the map; `dist` is the
    /// distance along the boundary, walked counter-clockwise from its start,
    /// to the point of contact.
    WrongTerrain { dist: Measure },
    /// On the pad but tilted; `error_abs` is the absolute tilt.
    NotVertical { error_abs: Measure },
    /// On the pad but sinking too fast; `error_abs` is the excess over the
    /// vertical speed limit.
    TooFastVertical { error_abs: Measure },
    /// On the pad but drifting too fast; `error_abs` is the excess over the
    /// horizontal speed limit.
    TooFastHorizontal { error_abs: Measure },
}

/// What was measured where the lander met the boundary.
#[derive(Clone, Copy, Debug)]
pub struct Touchdown {
    /// Whether the segment that was hit is level.
    pub flat: bool,
    /// Whether the segment that was hit lies at the upper bound of the map.
    pub ceiling: bool,
    /// Distance along the boundary to the point of contact.
    pub dist: Measure,
    /// By how much the horizontal speed exceeds its limit, if it does.
    pub horizontal_excess: Option<Measure>,
    /// By how much the vertical speed exceeds its limit, if it does.
    pub vertical_excess: Option<Measure>,
    /// The absolute tilt of the lander, if it is tilted at all.
    pub tilt: Option<Measure>,
}

impl Landing {
    /// The outcome that `contact` amounts to. Ground that is not the pad
    /// decides first; on the pad, horizontal speed is judged before vertical
    /// speed, and speed before tilt.
    pub open spec fn of(contact: Touchdown) -> Landing {
        if !contact.flat || contact.ceiling {
            Landing::WrongTerrain { dist: contact.dist }
        } else if let Some(error_abs) = contact.horizontal_excess {
            Landing::TooFastHorizontal { error_abs }
        } else if let Some(error_abs) = contact.vertical_excess {
            Landing::TooFastVertical { error_abs }
        } else if let Some(error_abs) = contact.tilt {
            Landing::NotVertical { error_abs }
        } else {
            Landing::Correct
        }
    }

    /// Names the outcome of a contact with the boundary.
    pub fn classify(contact: &Touchdown) -> (landing: Landing)
        ensures
            landing == Landing::of(*contact),
    {
        if !contact.flat || contact.ceiling {
            return Landing::WrongTerrain { dist: contact.dist };
        }
        if let Some(error_abs) = contact.horizontal_excess {
            return Landing::TooFastHorizontal { error_abs };
        }
        if let Some(error_abs) = contact.vertical_excess {
            return Landing::TooFastVertical { error_abs };
        }
        if let Some(error_abs) = contact.tilt {
            return Landing::NotVertical { error_abs };
        }
        Landing::Correct
    }

    /// A landing is correct exactly when the contact is on the pad, within
    /// both speed limits and upright.
    pub proof fn correct_iff_clean(contact: Touchdown)
        ensures
            Landing::of(contact) == Landing::Correct <==> {
                &&& contact.flat
                &&& !contact.ceiling
                &&& contact.horizontal_excess is None
                &&& contact.vertical_excess is None
                &&& contact.tilt is None
            },
    {
    }
}

} // verus!
