//! From the outcomes of a generation to what its fitness is made of.
//!
//! The fitness of a landing is its score, lessened by how far its error lies
//! from the smallest error of its kind towards the largest one in the same
//! generation. This module finds the score and the three measures; turning
//! them into one number is arithmetic on the measured quantities and is left
//! to the caller.

use vstd::prelude::*;
use crate::collision::{Landing, Measure};

verus! {

/// The kinds of error that a landing can carry.
#[derive(Clone, Copy, Debug, PartialEq, Eq, Structural)]
pub enum ErrorKind {
    /// The tilt of a landing that is not vertical.
    Angle,
    /// The excess speed of a landing that is too fast horizontally.
    HorizontalSpeed,
    /// The excess speed of a landing that is too fast vertically.
    VerticalSpeed,
    /// The distance of a landing on wrong terrain.
    TerrainDist,
}

/// The smallest and the largest measure seen, in this order.
pub type Span = Option<(Measure, Measure)>;

/// The kind and the size of the error of `landing`; a correct landing has
/// none.
pub open spec fn error_of(landing: Landing) -> Option<(ErrorKind, Measure)> {
    match landing {
        Landing::Correct => None,
        Landing::WrongTerrain { dist } => Some((ErrorKind::TerrainDist, dist)),
        Landing::NotVertical { error_abs } => Some((ErrorKind::Angle, error_abs)),
        Landing::TooFastVertical { error_abs } => Some((ErrorKind::VerticalSpeed, error_abs)),
        Landing::TooFastHorizontal { error_abs } => Some((ErrorKind::HorizontalSpeed, error_abs)),
    }
}

/// The score of a landing by its kind, in tenths.
pub open spec fn score_of(landing: Landing) -> u8 {
    match landing {
        Landing::Correct => 10,
        Landing::WrongTerrain { .. } => 3,
        Landing::NotVertical { .. } => 9,
        Landing::TooFastVertical { .. } => 7,
        Landing::TooFastHorizontal { .. } => 5,
    }
}

/// The score of a landing by its kind, in tenths: the closer the kind is to a
/// correct landing, the higher.
pub fn landing_state_score(state: &Landing) -> (tenths: u8)
    ensures
        tenths == score_of(*state),
{
    match state {
        Landing::Correct => 10,
        Landing::WrongTerrain { .. } => 3,
        Landing::NotVertical { .. } => 9,
        Landing::TooFastVertical { .. } => 7,
        Landing::TooFastHorizontal { .. } => 5,
    }
}

/// `span` widened so that it takes in `b`.
pub open spec fn widened(span: Span, b: Measure) -> Span {
    match span {
        None => Some((b, b)),
        Some((min, max)) => Some((if b < min { b } else { min }, if b > max { b } else { max })),
    }
}

/// Widens `a` so that it takes in `b`.
pub fn update_min_max(a: &mut Span, b: Measure)
    ensures
        *final(a) == widened(*old(a), b),
{
    *a = match *a {
        None => Some((b, b)),
        Some((existing_min, existing_max)) => Some(
            (
                if b < existing_min { b } else { existing_min },
                if b > existing_max { b } else { existing_max },
            ),
        ),
    };
}

/// The span of the errors of kind `kind` among the first `upto` of
/// `results`.
pub open spec fn span_upto(results: Seq<Landing>, kind: ErrorKind, upto: nat) -> Span
    decreases upto,
{
    if upto == 0 {
        None
    } else {
        let before = span_upto(results, kind, (upto - 1) as nat);
        match error_of(results[upto - 1]) {
            Some((k, e)) => if k == kind { widened(before, e) } else { before },
            None => before,
        }
    }
}

/// The span of the errors of kind `kind` among `results`.
pub open spec fn span_of(results: Seq<Landing>, kind: ErrorKind) -> Span {
    span_upto(results, kind, results.len())
}

/// Whether `results[i]` carries the error `e` of kind `kind`.
pub open spec fn carries(results: Seq<Landing>, kind: ErrorKind, i: int, e: Measure) -> bool {
    0 <= i < results.len() && error_of(results[i]) == Some((kind, e))
}

/// What a span means. There is none exactly when no landing among the first
/// `upto` carries an error of the kind; otherwise its two ends are errors
/// that some landing carries, and the error of every such landing lies
/// between them.
pub proof fn span_is_tight(results: Seq<Landing>, kind: ErrorKind, upto: nat)
    requires
        upto <= results.len(),
    ensures
        match span_upto(results, kind, upto) {
            None => forall|i: int, e: Measure| 0 <= i < upto ==> !#[trigger] carries(results, kind, i, e),
            Some((min, max)) => {
                &&& min <= max
                &&& exists|i: int| 0 <= i < upto && #[trigger] carries(results, kind, i, min)
                &&& exists|i: int| 0 <= i < upto && #[trigger] carries(results, kind, i, max)
                &&& forall|i: int, e: Measure|
                    0 <= i < upto && #[trigger] carries(results, kind, i, e) ==> min <= e <= max
            },
        },
    decreases upto,
{
    if upto > 0 {
        let last = (upto - 1) as int;
        span_is_tight(results, kind, last as nat);
        let before = span_upto(results, kind, last as nat);
        match error_of(results[last]) {
            Some((k, e)) => {
                if k == kind {
                    assert(carries(results, kind, last, e));
                    match before {
                        None => {},
                        Some((min, max)) => {
                            let i_min = choose|i: int| 0 <= i < last && #[trigger] carries(results, kind, i, min);
                            let i_max = choose|i: int| 0 <= i < last && #[trigger] carries(results, kind, i, max);
                            if e >= min {
                                assert(carries(results, kind, i_min, min));
                            }
                            if e <= max {
                                assert(carries(results, kind, i_max, max));
                            }
                        },
                    }
                } else {
                    match before {
                        None => {},
                        Some((min, max)) => {
                            let i_min = choose|i: int| 0 <= i < last && #[trigger] carries(results, kind, i, min);
                            let i_max = choose|i: int| 0 <= i < last && #[trigger] carries(results, kind, i, max);
                            assert(carries(results, kind, i_min, min));
                            assert(carries(results, kind, i_max, max));
                        },
                    }
                }
            },
            None => {
                match before {
                    None => {},
                    Some((min, max)) => {
                        let i_min = choose|i: int| 0 <= i < last && #[trigger] carries(results, kind, i, min);
                        let i_max = choose|i: int| 0 <= i < last && #[trigger] carries(results, kind, i, max);
                        assert(carries(results, kind, i_min, min));
                        assert(carries(results, kind, i_max, max));
                    },
                }
            },
        }
    }
}

/// The span of each kind of error over one generation.
#[derive(Clone, Copy, Debug)]
pub struct MaxErrors {
    pub angle_error: Span,
    pub horizontal_speed_error: Span,
    pub vertical_speed_error: Span,
    pub terrain_dist_error: Span,
}

impl MaxErrors {
    /// The span kept for `kind`.
    pub open spec fn span(self, kind: ErrorKind) -> Span {
        match kind {
            ErrorKind::Angle => self.angle_error,
            ErrorKind::HorizontalSpeed => self.horizontal_speed_error,
            ErrorKind::VerticalSpeed => self.vertical_speed_error,
            ErrorKind::TerrainDist => self.terrain_dist_error,
        }
    }
}

impl Default for MaxErrors {
    fn default() -> (r: Self)
        ensures
            forall|kind: ErrorKind| #[trigger] r.span(kind) is None,
    {
        MaxErrors {
            angle_error: None,
            horizontal_speed_error: None,
            vertical_speed_error: None,
            terrain_dist_error: None,
        }
    }
}

/// Finds the span of each kind of error among `landing_results`.
pub fn get_min_max_errors(landing_results: &[Landing]) -> (errors: MaxErrors)
    ensures
        forall|kind: ErrorKind| #[trigger] errors.span(kind) == span_of(landing_results@, kind),
{
    let mut errors = MaxErrors::default();
    let n: usize = landing_results.len();
    let mut i: usize = 0;
    while i < n
        invariant
            i <= n,
            n == landing_results@.len(),
            forall|kind: ErrorKind| #[trigger] errors.span(kind) == span_upto(landing_results@, kind, i as nat),
        decreases n - i,
    {
        let ghost before = errors;
        match landing_results[i] {
            Landing::NotVertical { error_abs } => update_min_max(&mut errors.angle_error, error_abs),
            Landing::WrongTerrain { dist } => update_min_max(&mut errors.terrain_dist_error, dist),
            Landing::TooFastHorizontal { error_abs } => update_min_max(
                &mut errors.horizontal_speed_error,
                error_abs,
            ),
            Landing::TooFastVertical { error_abs } => update_min_max(
                &mut errors.vertical_speed_error,
                error_abs,
            ),
            Landing::Correct => (),
        };
        assert forall|kind: ErrorKind| #[trigger] errors.span(kind) == span_upto(
            landing_results@,
            kind,
            (i + 1) as nat,
        ) by {
            assert(before.span(kind) == span_upto(landing_results@, kind, i as nat));
        }
        i += 1;
    }
    errors
}

/// How far an error lies within the span of its kind.
#[derive(Clone, Copy, Debug, PartialEq, Eq, Structural)]
pub struct Deviation {
    /// The error itself.
    pub value: Measure,
    /// The smallest error of the kind in the generation.
    pub min: Measure,
    /// The largest error of the kind in the generation.
    pub max: Measure,
}

/// What the fitness of one landing is made of: the score of its kind, in
/// tenths, and, unless the landing is correct, the place of its error among
/// the errors of its kind. The fitness is the score, lessened by the share
/// that the error has covered of the way from `min` to `max`; where both
/// ends meet nothing is taken off.
#[derive(Clone, Copy, Debug, PartialEq, Eq)]
pub struct Fitness {
    pub score: u8,
    pub deviation: Option<Deviation>,
}

/// What the fitness of `results[i]` is made of.
pub open spec fn fitness_of(results: Seq<Landing>, i: int) -> Fitness {
    Fitness {
        score: score_of(results[i]),
        deviation: match error_of(results[i]) {
            None => None,
            Some((kind, e)) => match span_of(results, kind) {
                Some((min, max)) => Some(Deviation { value: e, min, max }),
                None => None,
            },
        },
    }
}

/// Every error of a generation has a deviation, and lies within its span.
pub proof fn deviation_is_within(results: Seq<Landing>, i: int)
    requires
        0 <= i < results.len(),
    ensures
        error_of(results[i]) is Some <==> fitness_of(results, i).deviation is Some,
        fitness_of(results, i).deviation matches Some(d) ==> d.min <= d.value <= d.max,
{
    match error_of(results[i]) {
        None => {},
        Some((kind, e)) => {
            span_is_tight(results, kind, results.len());
            assert(carries(results, kind, i, e));
        },
    }
}

/// Finds what the fitness of each landing of a generation is made of. There
/// is always a result.
pub fn calculate_fitness(landing_results: &[Landing]) -> (r: Option<Vec<Fitness>>)
    ensures
        r matches Some(fitness) && {
            &&& fitness@.len() == landing_results@.len()
            &&& forall|i: int| 0 <= i < fitness@.len() ==> #[trigger] fitness@[i] == fitness_of(landing_results@, i)
        },
{
    let max_errors = get_min_max_errors(landing_results);
    let n: usize = landing_results.len();
    let mut fitness: Vec<Fitness> = Vec::new();
    let mut i: usize = 0;
    while i < n
        invariant
            i <= n,
            n == landing_results@.len(),
            forall|kind: ErrorKind| #[trigger] max_errors.span(kind) == span_of(landing_results@, kind),
            fitness@.len() == i,
            forall|j: int| 0 <= j < i ==> #[trigger] fitness@[j] == fitness_of(landing_results@, j),
        decreases n - i,
    {
        let result: &Landing = &landing_results[i];
        let found: Option<(Span, Measure)> = match result {
            Landing::Correct => None,
            Landing::NotVertical { error_abs } => Some((max_errors.angle_error, *error_abs)),
            Landing::TooFastHorizontal { error_abs } => Some((max_errors.horizontal_speed_error, *error_abs)),
            Landing::TooFastVertical { error_abs } => Some((max_errors.vertical_speed_error, *error_abs)),
            Landing::WrongTerrain { dist } => Some((max_errors.terrain_dist_error, *dist)),
        };
        proof {
            assert(max_errors.span(ErrorKind::Angle) == span_of(landing_results@, ErrorKind::Angle));
            assert(max_errors.span(ErrorKind::HorizontalSpeed) == span_of(
                landing_results@,
                ErrorKind::HorizontalSpeed,
            ));
            assert(max_errors.span(ErrorKind::VerticalSpeed) == span_of(
                landing_results@,
                ErrorKind::VerticalSpeed,
            ));
            assert(max_errors.span(ErrorKind::TerrainDist) == span_of(landing_results@, ErrorKind::TerrainDist));
        }
        let deviation: Option<Deviation> = match found {
            Some((Some((min, max)), value)) => Some(Deviation { value, min, max }),
            _ => None,
        };
        fitness.push(Fitness { score: landing_state_score(result), deviation });
        i += 1;
    }
    Some(fitness)
}

} // verus!
