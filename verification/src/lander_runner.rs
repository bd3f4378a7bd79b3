//! Flying a whole population in lockstep, one tick at a time.

use vstd::prelude::*;
use crate::chromosome::{genes_of, Chromosome, Genes};
use crate::collision::{Landing, Measure};
use crate::physics::{Command, SimulationError};

verus! {

/// Why a tick of the runner failed.
#[derive(Clone, Copy, Debug, PartialEq, Eq, Structural)]
pub enum Error {
    /// The population does not have one chromosome per lander.
    InconsistentState,
    /// Chromosome `id` has no command to give at tick `sub_id`.
    CommandGetError { id: usize, sub_id: usize },
    /// The state calculator refused a command.
    SimulationError(SimulationError),
}

impl From<SimulationError> for Error {
    fn from(val: SimulationError) -> (r: Self) {
        Error::SimulationError(val)
    }
}

impl vstd::std_specs::convert::FromSpecImpl<SimulationError> for Error {
    open spec fn obeys_from_spec() -> bool {
        true
    }

    open spec fn from_spec(val: SimulationError) -> Self {
        Error::SimulationError(val)
    }
}

/// Whether a tick moved anything.
#[derive(Clone, Copy, Debug, PartialEq, Eq, Structural)]
pub enum ExecutionStatus {
    /// At least one lander was still flying when the tick began.
    InProgress,
    /// Every lander had landed before the tick; nothing was done.
    Finished,
}

/// Where a lander is in its flight.
#[derive(Clone, Copy, Debug, PartialEq, Eq, Structural)]
pub enum FlightState {
    Flying,
    Landed(Landing),
}

/// The positions, in the angles and in the thrusts of `genes`, of the gene
/// pair that is flown at tick `index`: the pair at `index` while the angles
/// last, and the last angle with the last thrust from then on.
pub open spec fn gene_at(genes: Genes, index: int) -> Option<(int, int)> {
    if index < genes.angles.len() {
        if index < genes.thrusts.len() {
            Some((index, index))
        } else {
            None
        }
    } else if genes.angles.len() > 0 && genes.thrusts.len() > 0 {
        Some((genes.angles.len() - 1, genes.thrusts.len() - 1))
    } else {
        None
    }
}

/// Finds the gene pair of `chromosome` that is flown at tick `index`.
pub fn get_id_or_last(chromosome: &Chromosome, index: usize) -> (r: Option<(usize, usize)>)
    ensures
        match r {
            Some((a, t)) => gene_at(chromosome@, index as int) == Some((a as int, t as int)),
            None => gene_at(chromosome@, index as int) is None,
        },
{
    if index < chromosome.angles.len() {
        if index < chromosome.thrusts.len() {
            Some((index, index))
        } else {
            None
        }
    } else if chromosome.angles.len() > 0 && chromosome.thrusts.len() > 0 {
        Some((chromosome.angles.len() - 1, chromosome.thrusts.len() - 1))
    } else {
        None
    }
}

/// Whether `state` is a landing that missed only by a tilt of at most
/// `angle_step`, which one more tick with a level command undoes.
pub open spec fn correctable(state: FlightState, angle_step: Measure) -> bool {
    state matches FlightState::Landed(Landing::NotVertical { error_abs }) && error_abs <= angle_step
}

/// What one tick does to a lander that is flying, when the tick succeeds.
///
/// The lander flies the gene pair that `gene_at` names. If that ends in a
/// correctable landing, the angle gene is set to zero in the chromosome and
/// the tick is computed again from the same state with the level command;
/// otherwise the chromosome stays as it is. Either way the lander takes the
/// state and the flight state that the calculator handed back last.
pub open spec fn flown<S, F: Fn(&S, Command) -> Result<(S, FlightState), SimulationError>>(
    calculator: F,
    angle_step: Measure,
    tick: int,
    lander: S,
    genes: Genes,
    new_lander: S,
    new_state: FlightState,
    new_genes: Genes,
) -> bool {
    &&& gene_at(genes, tick) matches Some((a, t))
    &&& exists|first: (S, FlightState)|
        {
            &&& #[trigger] call_ensures(
                calculator,
                (&lander, Command { angle: genes.angles[a], power: genes.thrusts[t] }),
                Ok(first),
            )
            &&& if correctable(first.1, angle_step) {
                &&& new_genes == (Genes { angles: genes.angles.update(a, 0), thrusts: genes.thrusts })
                &&& call_ensures(
                    calculator,
                    (&lander, Command { angle: 0, power: genes.thrusts[t] }),
                    Ok((new_lander, new_state)),
                )
            } else {
                &&& new_genes == genes
                &&& first == (new_lander, new_state)
            }
        }
}

/// What one tick does to the lander at `id`: a lander that has landed stays
/// as it is, with its chromosome; one that is flying is flown.
pub open spec fn advanced<S, F: Fn(&S, Command) -> Result<(S, FlightState), SimulationError>>(
    calculator: F,
    angle_step: Measure,
    tick: int,
    state: FlightState,
    lander: S,
    genes: Genes,
    new_lander: S,
    new_state: FlightState,
    new_genes: Genes,
) -> bool {
    if state is Flying {
        flown(calculator, angle_step, tick, lander, genes, new_lander, new_state, new_genes)
    } else {
        new_lander == lander && new_state == state && new_genes == genes
    }
}

/// What one tick does to a lander that is flying, when the calculator
/// refuses it with the error `e`.
///
/// Either the command of the gene pair that `gene_at` names is refused, and
/// the chromosome is as it was; or that command ends in a correctable
/// landing, the angle gene is set to zero in the chromosome, and it is the
/// level command that is refused.
pub open spec fn failed<S, F: Fn(&S, Command) -> Result<(S, FlightState), SimulationError>>(
    calculator: F,
    angle_step: Measure,
    tick: int,
    lander: S,
    genes: Genes,
    e: SimulationError,
    new_genes: Genes,
) -> bool {
    &&& gene_at(genes, tick) matches Some((a, t))
    &&& {
        ||| {
            &&& call_ensures(
                calculator,
                (&lander, Command { angle: genes.angles[a], power: genes.thrusts[t] }),
                Err::<(S, FlightState), SimulationError>(e),
            )
            &&& new_genes == genes
        }
        ||| exists|first: (S, FlightState)|
            {
                &&& #[trigger] call_ensures(
                    calculator,
                    (&lander, Command { angle: genes.angles[a], power: genes.thrusts[t] }),
                    Ok(first),
                )
                &&& correctable(first.1, angle_step)
                &&& call_ensures(
                    calculator,
                    (&lander, Command { angle: 0, power: genes.thrusts[t] }),
                    Err::<(S, FlightState), SimulationError>(e),
                )
                &&& new_genes == (Genes { angles: genes.angles.update(a, 0), thrusts: genes.thrusts })
            }
    }
}

/// Whether the calculator can refuse the tick of a flying lander at all.
pub open spec fn may_fail<S, F: Fn(&S, Command) -> Result<(S, FlightState), SimulationError>>(
    calculator: F,
    angle_step: Measure,
    tick: int,
    lander: S,
    genes: Genes,
) -> bool {
    exists|e: SimulationError, new_genes: Genes| #[trigger]
        failed(calculator, angle_step, tick, lander, genes, e, new_genes)
}

/// All that a tick reads and writes: the landers, their flight states and the
/// genes of their chromosomes, lander by lander.
pub struct Flight<S> {
    pub landers: Seq<S>,
    pub states: Seq<FlightState>,
    pub genes: Seq<Genes>,
}

/// Whether the tick has done to lander `i` what `advanced` says.
pub open spec fn advanced_at<S, F: Fn(&S, Command) -> Result<(S, FlightState), SimulationError>>(
    calculator: F,
    angle_step: Measure,
    tick: int,
    before: Flight<S>,
    after: Flight<S>,
    i: int,
) -> bool {
    advanced(
        calculator,
        angle_step,
        tick,
        before.states[i],
        before.landers[i],
        before.genes[i],
        after.landers[i],
        after.states[i],
        after.genes[i],
    )
}

/// Whether lander `i`, its flight state and its genes are as they were.
pub open spec fn untouched_at<S>(before: Flight<S>, after: Flight<S>, i: int) -> bool {
    &&& after.landers[i] == before.landers[i]
    &&& after.states[i] == before.states[i]
    &&& after.genes[i] == before.genes[i]
}

/// Whether the tick ended at lander `id` because its chromosome had no
/// command: the landers before it have been advanced, and it and those after
/// it are as they were.
pub open spec fn stranded_at<S, F: Fn(&S, Command) -> Result<(S, FlightState), SimulationError>>(
    calculator: F,
    angle_step: Measure,
    tick: int,
    before: Flight<S>,
    after: Flight<S>,
    id: int,
) -> bool {
    &&& 0 <= id < before.landers.len()
    &&& before.states[id] is Flying
    &&& gene_at(before.genes[id], tick) is None
    &&& forall|j: int| 0 <= j < id ==> #[trigger] advanced_at(calculator, angle_step, tick, before, after, j)
    &&& forall|j: int| id <= j < before.landers.len() ==> #[trigger] untouched_at(before, after, j)
}

/// Whether the tick ended at lander `id` because the calculator refused it
/// with the error `e`: the landers before it have been advanced, those after
/// it are as they were, and so are its own state and flight state, so that
/// it is still flying; its chromosome is as `failed` says.
pub open spec fn halted_at<S, F: Fn(&S, Command) -> Result<(S, FlightState), SimulationError>>(
    calculator: F,
    angle_step: Measure,
    tick: int,
    before: Flight<S>,
    after: Flight<S>,
    id: int,
    e: SimulationError,
) -> bool {
    &&& 0 <= id < before.landers.len()
    &&& before.states[id] is Flying
    &&& failed(calculator, angle_step, tick, before.landers[id], before.genes[id], e, after.genes[id])
    &&& after.landers[id] == before.landers[id]
    &&& after.states[id] == before.states[id]
    &&& forall|j: int| 0 <= j < id ==> #[trigger] advanced_at(calculator, angle_step, tick, before, after, j)
    &&& forall|j: int| id < j < before.landers.len() ==> #[trigger] untouched_at(before, after, j)
}

/// Whether the tick ended because the calculator refused some lander with
/// the error `e`.
pub open spec fn halted<S, F: Fn(&S, Command) -> Result<(S, FlightState), SimulationError>>(
    calculator: F,
    angle_step: Measure,
    tick: int,
    before: Flight<S>,
    after: Flight<S>,
    e: SimulationError,
) -> bool {
    exists|id: int| #[trigger] halted_at(calculator, angle_step, tick, before, after, id, e)
}

/// Whether the tick is bound to get past lander `j`: it has landed, or it
/// has a command and the calculator cannot refuse its tick.
pub open spec fn passes<S, F: Fn(&S, Command) -> Result<(S, FlightState), SimulationError>>(
    calculator: F,
    angle_step: Measure,
    tick: int,
    before: Flight<S>,
    j: int,
) -> bool {
    before.states[j] is Flying ==> {
        &&& gene_at(before.genes[j], tick) is Some
        &&& !may_fail(calculator, angle_step, tick, before.landers[j], before.genes[j])
    }
}

/// Whether lander `id` is the first that the tick cannot get past, and that
/// for want of a command.
pub open spec fn lacks_command<S, F: Fn(&S, Command) -> Result<(S, FlightState), SimulationError>>(
    calculator: F,
    angle_step: Measure,
    tick: int,
    before: Flight<S>,
    id: int,
) -> bool {
    &&& 0 <= id < before.landers.len()
    &&& before.states[id] is Flying
    &&& gene_at(before.genes[id], tick) is None
    &&& forall|j: int| 0 <= j < id ==> #[trigger] passes(calculator, angle_step, tick, before, j)
}

/// The landing of every lander, where every lander has landed.
pub open spec fn landings_of(states: Seq<FlightState>) -> Option<Seq<Landing>> {
    if forall|i: int| 0 <= i < states.len() ==> #[trigger] states[i] is Landed {
        Some(Seq::new(states.len(), |i: int| states[i]->Landed_0))
    } else {
        None
    }
}

/// Gathers the landings of a generation that has come down. While a lander is
/// still flying there is no result.
pub fn landings(states: &[FlightState]) -> (r: Option<Vec<Landing>>)
    ensures
        match landings_of(states@) {
            Some(all) => r matches Some(found) && found@ == all,
            None => r is None,
        },
{
    let n: usize = states.len();
    let mut found: Vec<Landing> = Vec::new();
    let mut i: usize = 0;
    while i < n
        invariant
            i <= n,
            n == states@.len(),
            found@.len() == i,
            forall|j: int| 0 <= j < i ==> #[trigger] states@[j] == FlightState::Landed(found@[j]),
        decreases n - i,
    {
        match states[i] {
            FlightState::Landed(landing) => {
                found.push(landing);
            },
            FlightState::Flying => {
                return None;
            },
        }
        i += 1;
    }
    assert(forall|j: int| 0 <= j < states@.len() ==> #[trigger] states@[j] is Landed);
    assert(found@ =~= Seq::new(states@.len(), |i: int| states@[i]->Landed_0));
    Some(found)
}

/// `n` copies of `value`.
fn filled<T: Copy>(value: T, n: usize) -> (v: Vec<T>)
    ensures
        v@.len() == n,
        forall|i: int| 0 <= i < n ==> v@[i] == value,
{
    let mut v: Vec<T> = Vec::new();
    let mut i: usize = 0;
    while i < n
        invariant
            i <= n,
            v@.len() == i,
            forall|j: int| 0 <= j < i ==> v@[j] == value,
        decreases n - i,
    {
        v.push(value);
        i += 1;
    }
    v
}

/// The landers of one generation and their flight states, advanced together.
///
/// `S` is the state of one lander. `F` computes a tick: from a state and a
/// command it gives the next state and whether the lander has landed, or
/// refuses the command.
#[verifier::reject_recursive_types(S)]
pub struct LanderRunner<S: Copy, F: Fn(&S, Command) -> Result<(S, FlightState), SimulationError>> {
    states: Vec<FlightState>,
    landers: Vec<S>,
    lander_state_calculator: F,
    angle_step: Measure,
    iteration_id: usize,
}

impl<S: Copy, F: Fn(&S, Command) -> Result<(S, FlightState), SimulationError>> LanderRunner<S, F> {
    #[verifier::type_invariant]
    spec fn well_formed(self) -> bool {
        &&& self.states@.len() == self.landers@.len()
        &&& forall|s: &S, c: Command| call_requires(self.lander_state_calculator, (s, c))
    }

    /// The state of each lander.
    pub closed spec fn landers(self) -> Seq<S> {
        self.landers@
    }

    /// The flight state of each lander; as many as there are landers.
    pub closed spec fn flight_states(self) -> Seq<FlightState> {
        self.states@
    }

    /// The function that computes a tick.
    pub closed spec fn calculator(self) -> F {
        self.lander_state_calculator
    }

    /// The largest tilt that is corrected on landing.
    pub closed spec fn angle_step(self) -> Measure {
        self.angle_step
    }

    /// The number of ticks flown since the landers were last set up.
    pub closed spec fn tick(self) -> int {
        self.iteration_id as int
    }

    /// Whether any lander is still flying.
    pub open spec fn any_flying(self) -> bool {
        exists|i: int| 0 <= i < self.flight_states().len() && #[trigger] self.flight_states()[i] is Flying
    }

    /// What a tick under `population` reads and writes.
    pub open spec fn flight(self, population: Seq<Chromosome>) -> Flight<S> {
        Flight { landers: self.landers(), states: self.flight_states(), genes: genes_of(population) }
    }

    /// A runner of `num_of_landers` landers, all flying from
    /// `initial_lander_state`. The calculator must accept every state and
    /// every command.
    pub fn new(
        initial_lander_state: S,
        num_of_landers: usize,
        angle_step: Measure,
        lander_state_calculator: F,
    ) -> (r: Self)
        requires
            forall|s: &S, c: Command| call_requires(lander_state_calculator, (s, c)),
        ensures
            r.landers() == Seq::new(num_of_landers as nat, |i: int| initial_lander_state),
            r.flight_states() == Seq::new(num_of_landers as nat, |i: int| FlightState::Flying),
            r.calculator() == lander_state_calculator,
            r.angle_step() == angle_step,
            r.tick() == 0,
    {
        let r = LanderRunner {
            lander_state_calculator,
            states: filled(FlightState::Flying, num_of_landers),
            landers: filled(initial_lander_state, num_of_landers),
            angle_step,
            iteration_id: 0,
        };
        assert(r.landers@ =~= Seq::new(num_of_landers as nat, |i: int| initial_lander_state));
        assert(r.states@ =~= Seq::new(num_of_landers as nat, |i: int| FlightState::Flying));
        r
    }

    /// Puts every lander back to `initial_lander_state`, flying, at tick 0.
    pub fn reinitialize(&mut self, initial_lander_state: S)
        ensures
            final(self).landers() == Seq::new(old(self).landers().len(), |i: int| initial_lander_state),
            final(self).flight_states() == Seq::new(old(self).landers().len(), |i: int| FlightState::Flying),
            final(self).calculator() == old(self).calculator(),
            final(self).angle_step() == old(self).angle_step(),
            final(self).tick() == 0,
    {
        proof {
            use_type_invariant(&*self);
        }
        let n: usize = self.landers.len();
        self.states = filled(FlightState::Flying, n);
        self.landers = filled(initial_lander_state, n);
        self.iteration_id = 0;
        assert(self.landers@ =~= Seq::new(n as nat, |i: int| initial_lander_state));
        assert(self.states@ =~= Seq::new(n as nat, |i: int| FlightState::Flying));
    }

    pub fn num_of_landers(&self) -> (n: usize)
        ensures
            n == self.landers().len(),
            n == self.flight_states().len(),
    {
        proof {
            use_type_invariant(self);
        }
        self.landers.len()
    }

    pub fn current_landers_states(&self) -> (r: &Vec<S>)
        ensures
            r@ == self.landers(),
    {
        &self.landers
    }

    pub fn current_flight_states(&self) -> (r: &Vec<FlightState>)
        ensures
            r@ == self.flight_states(),
    {
        &self.states
    }

    /// Advances every lander that is still flying by one tick, each under the
    /// command of its own chromosome, and counts the tick. Landers that have
    /// landed stay as they are, whatever the tick comes to.
    ///
    /// A population of another size than the runner is refused before
    /// anything is touched. Otherwise the landers are taken in their order,
    /// and the first flying lander whose chromosome has no command, or whose
    /// tick the calculator refuses, ends the tick with an error: the tick is
    /// not counted, the landers before that one have been advanced, and that
    /// one and those after it have not, so that it is still flying.
    pub fn iterate(&mut self, population: &mut [Chromosome]) -> (r: Result<ExecutionStatus, Error>)
        requires
            old(self).tick() < usize::MAX,
        ensures
            final(self).landers().len() == old(self).landers().len(),
            final(self).flight_states().len() == old(self).flight_states().len(),
            final(self).calculator() == old(self).calculator(),
            final(self).angle_step() == old(self).angle_step(),
            final(population)@.len() == old(population)@.len(),
            forall|i: int|
                0 <= i < old(self).landers().len() && !(#[trigger] old(self).flight_states()[i] is Flying)
                    ==> untouched_at(
                    old(self).flight(old(population)@),
                    final(self).flight(final(population)@),
                    i,
                ),
            old(population)@.len() != old(self).landers().len() <==> r == Err::<ExecutionStatus, Error>(
                Error::InconsistentState,
            ),
            r == Err::<ExecutionStatus, Error>(Error::InconsistentState) ==> {
                &&& final(self).landers() == old(self).landers()
                &&& final(self).flight_states() == old(self).flight_states()
                &&& final(population)@ == old(population)@
            },
            r matches Ok(status) ==> {
                &&& status == (if old(self).any_flying() {
                    ExecutionStatus::InProgress
                } else {
                    ExecutionStatus::Finished
                })
                &&& final(self).tick() == old(self).tick() + (if old(self).any_flying() {
                    1int
                } else {
                    0int
                })
                &&& forall|i: int|
                    0 <= i < old(self).landers().len() ==> #[trigger] advanced_at(
                        old(self).calculator(),
                        old(self).angle_step(),
                        old(self).tick(),
                        old(self).flight(old(population)@),
                        final(self).flight(final(population)@),
                        i,
                    )
            },
            r is Err ==> final(self).tick() == old(self).tick(),
            r matches Err(Error::CommandGetError { id, sub_id }) ==> {
                &&& sub_id == old(self).tick()
                &&& stranded_at(
                    old(self).calculator(),
                    old(self).angle_step(),
                    old(self).tick(),
                    old(self).flight(old(population)@),
                    final(self).flight(final(population)@),
                    id as int,
                )
            },
            r matches Err(Error::SimulationError(e)) ==> halted(
                old(self).calculator(),
                old(self).angle_step(),
                old(self).tick(),
                old(self).flight(old(population)@),
                final(self).flight(final(population)@),
                e,
            ),
            ({
                &&& old(population)@.len() == old(self).landers().len()
                &&& forall|i: int|
                    0 <= i < old(self).landers().len() ==> #[trigger] passes(
                        old(self).calculator(),
                        old(self).angle_step(),
                        old(self).tick(),
                        old(self).flight(old(population)@),
                        i,
                    )
            }) ==> r is Ok,
            forall|id: int|
                old(population)@.len() == old(self).landers().len() && #[trigger] lacks_command(
                    old(self).calculator(),
                    old(self).angle_step(),
                    old(self).tick(),
                    old(self).flight(old(population)@),
                    id,
                ) ==> r == Err::<ExecutionStatus, Error>(
                    Error::CommandGetError { id: id as usize, sub_id: old(self).tick() as usize },
                ),
    {
        proof {
            use_type_invariant(&*self);
        }
        let n: usize = self.landers.len();
        if population.len() != n {
            return Err(Error::InconsistentState);
        }
        let ghost calc = self.lander_state_calculator;
        let ghost before = self.flight(population@);
        let tick: usize = self.iteration_id;
        let angle_step: Measure = self.angle_step;
        let mut picked_any: bool = false;
        let mut i: usize = 0;
        while i < n
            invariant
                i <= n,
                before == old(self).flight(old(population)@),
                calc == old(self).lander_state_calculator,
                angle_step == old(self).angle_step,
                tick == old(self).iteration_id,
                n == before.landers.len(),
                n == before.states.len(),
                n == before.genes.len(),
                self.landers@.len() == n,
                self.states@.len() == n,
                population@.len() == n,
                self.lander_state_calculator == calc,
                self.angle_step == angle_step,
                self.iteration_id == tick,
                forall|s: &S, c: Command| call_requires(calc, (s, c)),
                picked_any <==> exists|j: int| 0 <= j < i && #[trigger] before.states[j] is Flying,
                forall|j: int|
                    0 <= j < i ==> #[trigger] advanced_at(
                        calc,
                        angle_step,
                        tick as int,
                        before,
                        self.flight(population@),
                        j,
                    ),
                forall|j: int| i <= j < n ==> #[trigger] untouched_at(before, self.flight(population@), j),
            decreases n - i,
        {
            let ghost so_far = self.flight(population@);
            assert(untouched_at(before, so_far, i as int));
            let state: FlightState = self.states[i];
            if let FlightState::Flying = state {
                picked_any = true;
                let (a, t) = match get_id_or_last(&population[i], tick) {
                    Some(found) => found,
                    None => {
                        proof {
                            let after = self.flight(population@);
                            assert(stranded_at(calc, angle_step, tick as int, before, after, i as int));
                            assert forall|j: int| 0 <= j < n && !(#[trigger] before.states[j] is Flying) implies untouched_at(
                                before,
                                after,
                                j,
                            ) by {
                                if j < i {
                                    assert(advanced_at(calc, angle_step, tick as int, before, after, j));
                                } else {
                                    assert(untouched_at(before, after, j));
                                }
                            }
                            if forall|k: int| 0 <= k < n ==> #[trigger] passes(calc, angle_step, tick as int, before, k) {
                                assert(passes(calc, angle_step, tick as int, before, i as int));
                            }
                            assert forall|id: int| #[trigger]
                                lacks_command(calc, angle_step, tick as int, before, id) implies id == i by {
                                if id < i {
                                    assert(advanced_at(calc, angle_step, tick as int, before, after, id));
                                } else if id > i {
                                    assert(passes(calc, angle_step, tick as int, before, i as int));
                                }
                            }
                        }
                        return Err(Error::CommandGetError { id: i, sub_id: tick });
                    },
                };
                let angle: i32 = population[i].angles[a];
                let thrust: i32 = population[i].thrusts[t];
                let lander: S = self.landers[i];
                let cmd: Command = Command::new(angle, thrust);
                let first = match (self.lander_state_calculator)(&lander, cmd) {
                    Ok(outcome) => outcome,
                    Err(e) => {
                        proof {
                            let after = self.flight(population@);
                            assert(failed(
                                calc,
                                angle_step,
                                tick as int,
                                before.landers[i as int],
                                before.genes[i as int],
                                e,
                                after.genes[i as int],
                            ));
                            assert(halted_at(calc, angle_step, tick as int, before, after, i as int, e));
                            Self::halt(
                                old(self).calculator(),
                                old(self).angle_step(),
                                old(self).tick(),
                                old(self).flight(old(population)@),
                                after,
                                i as int,
                                e,
                            );
                            assert(halted(
                                old(self).calculator(),
                                old(self).angle_step(),
                                old(self).tick(),
                                old(self).flight(old(population)@),
                                self.flight(population@),
                                e,
                            ));
                        }
                        return Err(Error::SimulationError(e));
                    },
                };
                let corrected: bool = match first.1 {
                    FlightState::Landed(Landing::NotVertical { error_abs }) => error_abs <= angle_step,
                    _ => false,
                };
                let (new_lander, new_state) = if corrected {
                    population[i].angles[a] = 0;
                    match (self.lander_state_calculator)(&lander, Command::new(0, thrust)) {
                        Ok(outcome) => outcome,
                        Err(e) => {
                            proof {
                                let after = self.flight(population@);
                                assert(after.genes[i as int] == (Genes {
                                    angles: before.genes[i as int].angles.update(a as int, 0),
                                    thrusts: before.genes[i as int].thrusts,
                                }));
                                assert(failed(
                                    calc,
                                    angle_step,
                                    tick as int,
                                    before.landers[i as int],
                                    before.genes[i as int],
                                    e,
                                    after.genes[i as int],
                                ));
                                assert forall|j: int| 0 <= j < n && j != i implies after.genes[j]
                                    == so_far.genes[j] && after.landers[j] == so_far.landers[j]
                                    && after.states[j] == so_far.states[j] by {}
                                assert forall|j: int| 0 <= j < i implies #[trigger] advanced_at(
                                    calc,
                                    angle_step,
                                    tick as int,
                                    before,
                                    after,
                                    j,
                                ) by {
                                    assert(advanced_at(calc, angle_step, tick as int, before, so_far, j));
                                }
                                assert forall|j: int| i < j < n implies #[trigger] untouched_at(
                                    before,
                                    after,
                                    j,
                                ) by {
                                    assert(untouched_at(before, so_far, j));
                                }
                                assert(halted_at(calc, angle_step, tick as int, before, after, i as int, e));
                            Self::halt(
                                old(self).calculator(),
                                old(self).angle_step(),
                                old(self).tick(),
                                old(self).flight(old(population)@),
                                after,
                                i as int,
                                e,
                            );
                            assert(halted(
                                old(self).calculator(),
                                old(self).angle_step(),
                                old(self).tick(),
                                old(self).flight(old(population)@),
                                self.flight(population@),
                                e,
                            ));
                            }
                            return Err(Error::SimulationError(e));
                        },
                    }
                } else {
                    first
                };
                self.landers[i] = new_lander;
                self.states[i] = new_state;
                proof {
                    let after = self.flight(population@);
                    assert(flown(
                        calc,
                        angle_step,
                        tick as int,
                        before.landers[i as int],
                        before.genes[i as int],
                        after.landers[i as int],
                        after.states[i as int],
                        after.genes[i as int],
                    ));
                    assert forall|j: int| 0 <= j < i implies #[trigger] advanced_at(
                        calc,
                        angle_step,
                        tick as int,
                        before,
                        after,
                        j,
                    ) by {
                        assert(advanced_at(calc, angle_step, tick as int, before, so_far, j));
                    }
                    assert forall|j: int| i < j < n implies #[trigger] untouched_at(before, after, j) by {
                        assert(untouched_at(before, so_far, j));
                    }
                }
            }
            i += 1;
        }
        proof {
            let after = self.flight(population@);
            assert forall|j: int| 0 <= j < n && !(#[trigger] before.states[j] is Flying) implies untouched_at(
                before,
                after,
                j,
            ) by {
                assert(advanced_at(calc, angle_step, tick as int, before, after, j));
            }
            assert forall|id: int| #[trigger]
                lacks_command(calc, angle_step, tick as int, before, id) implies false by {
                assert(advanced_at(calc, angle_step, tick as int, before, after, id));
            }
        }
        if picked_any {
            self.iteration_id = tick + 1;
            Ok(ExecutionStatus::InProgress)
        } else {
            Ok(ExecutionStatus::Finished)
        }
    }

    /// What follows where the tick is refused at lander `id`: no lander that
    /// had landed is touched, success is not owed, and no lander lacks a
    /// command before the tick could be refused.
    proof fn halt(
        calculator: F,
        angle_step: Measure,
        tick: int,
        before: Flight<S>,
        after: Flight<S>,
        id: int,
        e: SimulationError,
    )
        requires
            halted_at(calculator, angle_step, tick, before, after, id, e),
        ensures
            forall|j: int|
                0 <= j < before.landers.len() && !(#[trigger] before.states[j] is Flying) ==> untouched_at(
                    before,
                    after,
                    j,
                ),
            !(forall|k: int|
                0 <= k < before.landers.len() ==> #[trigger] passes(calculator, angle_step, tick, before, k)),
            forall|other: int| !#[trigger] lacks_command(calculator, angle_step, tick, before, other),
    {
        assert(may_fail(calculator, angle_step, tick, before.landers[id], before.genes[id]));
        assert forall|j: int| 0 <= j < before.landers.len() && !(#[trigger] before.states[j] is Flying) implies untouched_at(
            before,
            after,
            j,
        ) by {
            if j < id {
                assert(advanced_at(calculator, angle_step, tick, before, after, j));
            } else {
                assert(untouched_at(before, after, j));
            }
        }
        if forall|k: int| 0 <= k < before.landers.len() ==> #[trigger] passes(calculator, angle_step, tick, before, k) {
            assert(passes(calculator, angle_step, tick, before, id));
        }
        assert forall|other: int| !#[trigger] lacks_command(calculator, angle_step, tick, before, other) by {
            if lacks_command(calculator, angle_step, tick, before, other) {
                if other < id {
                    assert(advanced_at(calculator, angle_step, tick, before, after, other));
                } else if other > id {
                    assert(passes(calculator, angle_step, tick, before, id));
                }
            }
        }
    }
}

} // verus!
