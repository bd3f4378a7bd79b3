//! The population and its renewal: the best are kept, the rest are bred.

use rand::rngs::StdRng;
use vstd::prelude::*;
use crate::chromosome::{
    crossing,
    crossing_stays_within_steps,
    genes_of,
    mutated,
    mutation_stays_within_steps,
    within_steps,
    Chromosome,
    Genes,
};
use crate::collision::Measure;
use crate::fraction::Fraction;
use crate::genes::{accumulated, angle_range, sums, sums_in_range, thrust_range};
use crate::random::{choose_multiple, gen_range, picked};
use crate::ranking::{first_ranked_is_best, is_ranking, rank, ranking};

verus! {

/// Cross points are drawn as multiples of one part in this many.
pub const CROSS_POINT_RESOLUTION: i64 = 0x10_0000_0000_0000;

/// What the user chooses of a search.
#[derive(Clone, Copy, Debug)]
pub struct Settings {
    pub population_size: usize,
    pub chromosome_size: usize,
    pub elitism: Fraction,
    pub mutation_prob: Fraction,
}

/// What a solver is made from.
#[derive(Clone, Copy, Debug)]
pub struct SolverSettings {
    pub population_size: usize,
    pub chromosome_size: usize,
    pub initial_angle: i32,
    pub initial_thrust: i32,
    pub elitism: Fraction,
    pub mutation_prob: Fraction,
}

impl SolverSettings {
    /// The settings of a solver whose landers start with the tilt angle
    /// `initial_angle` and the thrust level `initial_thrust`.
    pub fn new(settings: Settings, initial_angle: i32, initial_thrust: i32) -> (r: Self)
        ensures
            r.population_size == settings.population_size,
            r.chromosome_size == settings.chromosome_size,
            r.initial_angle == initial_angle,
            r.initial_thrust == initial_thrust,
            r.elitism == settings.elitism,
            r.mutation_prob == settings.mutation_prob,
    {
        SolverSettings {
            population_size: settings.population_size,
            chromosome_size: settings.chromosome_size,
            initial_angle,
            initial_thrust,
            elitism: settings.elitism,
            mutation_prob: settings.mutation_prob,
        }
    }
}

/// Why a solver refused its settings or a fitness vector.
#[derive(Clone, Copy, Debug, PartialEq, Eq, Structural)]
pub enum SolverError {
    /// The elitism is no number between 0 and 1.
    ElitismOutOfRange,
    /// The mutation probability is no number between 0 and 1.
    MutationProbOutOfRange,
    /// The population has fewer than two chromosomes.
    PopulationTooSmall,
    /// The chromosomes have no genes.
    EmptyChromosome,
    /// The chromosomes that are not retained cannot be bred in pairs.
    OddChildrenCount,
    /// There is not one fitness value for each chromosome.
    FitnessLengthMismatch,
}

/// The number of chromosomes, out of `population_size`, that a generation
/// hands on unchanged.
pub open spec fn retained(elitism: Fraction, population_size: int) -> int {
    elitism.floor_of(population_size)
}

/// The first fault found in `settings`, if there is any.
pub open spec fn fault(settings: SolverSettings) -> Option<SolverError> {
    if !settings.elitism.is_unit() {
        Some(SolverError::ElitismOutOfRange)
    } else if !settings.mutation_prob.is_unit() {
        Some(SolverError::MutationProbOutOfRange)
    } else if settings.population_size < 2 {
        Some(SolverError::PopulationTooSmall)
    } else if settings.chromosome_size < 1 {
        Some(SolverError::EmptyChromosome)
    } else if (settings.population_size - retained(settings.elitism, settings.population_size as int)) % 2
        != 0 {
        Some(SolverError::OddChildrenCount)
    } else {
        None
    }
}

/// Whether `first` and `second` are the children of the parents at the
/// positions `one` and `other`, crossed at `cut` and then mutated with probability `prob`.
pub open spec fn bred(
    parents: Seq<Genes>,
    prob: Fraction,
    one: int,
    other: int,
    cut: Fraction,
    first: Genes,
    second: Genes,
) -> bool {
    &&& 0 <= one < parents.len()
    &&& 0 <= other < parents.len()
    &&& one != other
    &&& cut.is_unit()
    &&& cut.num < cut.den
    &&& mutated(crossing(parents[one], parents[other], cut), prob, first)
    &&& mutated(crossing(parents[other], parents[one], cut), prob, second)
}

/// Whether `first` and `second` are the children of two different parents
/// among `parents`, crossed at some point from 0 up to but not including 1
/// and then mutated with probability `prob`.
pub open spec fn descends(parents: Seq<Genes>, prob: Fraction, first: Genes, second: Genes) -> bool {
    exists|one: int, other: int, cut: Fraction| #[trigger] bred(parents, prob, one, other, cut, first, second)
}

/// The commands that the changes in `genes` add up to, from the initial
/// angle and thrust: each sum is clamped to what a command may hold before
/// the next change is added.
pub open spec fn accumulation(genes: Genes, initial_angle: int, initial_thrust: int) -> Genes {
    Genes {
        angles: sums(initial_angle, genes.angles, angle_range()),
        thrusts: sums(initial_thrust, genes.thrusts, thrust_range()),
    }
}

/// Every accumulated command is one that a command may hold, whatever the
/// changes were.
pub proof fn accumulation_is_admissible(genes: Genes, initial_angle: int, initial_thrust: int)
    ensures
        accumulation(genes, initial_angle, initial_thrust).angles.len() == genes.angles.len(),
        accumulation(genes, initial_angle, initial_thrust).thrusts.len() == genes.thrusts.len(),
        forall|k: int|
            0 <= k < genes.angles.len() ==> angle_range().holds(
                #[trigger] accumulation(genes, initial_angle, initial_thrust).angles[k] as int,
            ),
        forall|k: int|
            0 <= k < genes.thrusts.len() ==> thrust_range().holds(
                #[trigger] accumulation(genes, initial_angle, initial_thrust).thrusts[k] as int,
            ),
{
    sums_in_range(initial_angle, genes.angles, angle_range());
    sums_in_range(initial_thrust, genes.thrusts, thrust_range());
}

/// Whether the children at `2 * m` and `2 * m + 1` of `children` descend from
/// `parents`.
pub open spec fn pair_descends(parents: Seq<Genes>, prob: Fraction, children: Seq<Genes>, m: int) -> bool {
    descends(parents, prob, children[2 * m], children[2 * m + 1])
}

/// Whether `after` follows `before` by one generation under `fitness`, one
/// fitness value for each chromosome: the populations are of one size, the
/// `kept` best of `before` stand at the end of `after`, in the order of their
/// rank, and before them stand the children, pair by pair.
pub open spec fn renewed(
    before: Seq<Genes>,
    fitness: Seq<Measure>,
    kept: int,
    prob: Fraction,
    after: Seq<Genes>,
) -> bool {
    &&& after.len() == before.len()
    &&& fitness.len() == before.len()
    &&& 0 <= kept <= before.len()
    &&& is_ranking(fitness, ranking(fitness))
    &&& forall|k: int|
        0 <= k < kept ==> #[trigger] after[before.len() - kept + k] == before[ranking(fitness)[k] as int]
    &&& forall|m: int| 0 <= m && 2 * m + 1 < before.len() - kept ==> #[trigger] pair_descends(before, prob, after, m)
}

/// The fittest chromosome outlives its generation: where at least one
/// chromosome is retained, one with the highest fitness of all stands
/// unchanged in the next generation.
pub proof fn elite_survives(
    before: Seq<Genes>,
    fitness: Seq<Measure>,
    kept: int,
    prob: Fraction,
    after: Seq<Genes>,
)
    requires
        renewed(before, fitness, kept, prob, after),
        kept >= 1,
    ensures
        exists|best: int, at: int|
            {
                &&& 0 <= best < before.len()
                &&& 0 <= at < after.len()
                &&& #[trigger] after[at] == #[trigger] before[best]
                &&& forall|i: int| 0 <= i < fitness.len() ==> fitness[best] >= #[trigger] fitness[i]
            },
{
    let order = ranking(fitness);
    first_ranked_is_best(fitness, order);
    let best = order[0] as int;
    let at = before.len() - kept;
    assert(after[before.len() - kept + 0] == before[ranking(fitness)[0] as int]);
    assert(after[at] == before[best]);
}

/// Whether `genes` holds `size` gene pairs, each gene a change that one tick
/// may bring.
pub open spec fn sized(genes: Genes, size: int) -> bool {
    &&& genes.angles.len() == size
    &&& genes.thrusts.len() == size
    &&& within_steps(genes)
}

/// The numbers `0, 1, ..` up to but not including `n`.
fn indices(n: usize) -> (v: Vec<usize>)
    ensures
        v@.len() == n,
        forall|i: int| 0 <= i < n ==> #[trigger] v@[i] == i,
{
    let mut v: Vec<usize> = Vec::new();
    let mut i: usize = 0;
    while i < n
        invariant
            i <= n,
            v@.len() == i,
            forall|j: int| 0 <= j < i ==> #[trigger] v@[j] == j,
        decreases n - i,
    {
        v.push(i);
        i += 1;
    }
    v
}

/// A population of chromosomes that hold changes, and the settings by which
/// it is renewed.
pub struct Solver {
    population: Vec<Chromosome>,
    chromosome_size: usize,
    elitism: Fraction,
    mutation_prob: Fraction,
    initial_angle: i32,
    initial_thrust: i32,
}

impl Solver {
    #[verifier::type_invariant]
    spec fn well_formed(self) -> bool {
        self.sound()
    }

    /// The genes of each chromosome, in the order of the population.
    pub closed spec fn population(self) -> Seq<Genes> {
        genes_of(self.population@)
    }

    /// The number of gene pairs of every chromosome.
    pub closed spec fn chromosome_size(self) -> int {
        self.chromosome_size as int
    }

    /// The share of the population that a generation hands on unchanged.
    pub closed spec fn elitism(self) -> Fraction {
        self.elitism
    }

    /// The probability with which a gene pair of a child is redrawn.
    pub closed spec fn mutation_prob(self) -> Fraction {
        self.mutation_prob
    }

    /// The tilt angle from which the changes are added up.
    pub closed spec fn initial_angle(self) -> int {
        self.initial_angle as int
    }

    /// The thrust level from which the changes are added up.
    pub closed spec fn initial_thrust(self) -> int {
        self.initial_thrust as int
    }

    /// What holds of every solver: its shares are numbers between 0 and 1,
    /// it has at least two chromosomes, all of one length that is not zero
    /// and made of changes that one tick may bring, and those that are not
    /// retained come in pairs.
    pub open spec fn sound(self) -> bool {
        &&& self.elitism().is_unit()
        &&& self.mutation_prob().is_unit()
        &&& 2 <= self.population().len() <= usize::MAX
        &&& self.chromosome_size() >= 1
        &&& forall|i: int|
            0 <= i < self.population().len() ==> sized(#[trigger] self.population()[i], self.chromosome_size())
        &&& (self.population().len() - retained(self.elitism(), self.population().len() as int)) % 2 == 0
    }

    /// A solver with a random population. Settings with a fault are refused
    /// with the first fault found.
    pub fn try_new(settings: SolverSettings, rng: &mut StdRng) -> (r: Result<Self, SolverError>)
        ensures
            match fault(settings) {
                Some(e) => r matches Err(found) && found == e,
                None => r matches Ok(solver) && {
                    &&& solver.sound()
                    &&& solver.population().len() == settings.population_size
                    &&& solver.chromosome_size() == settings.chromosome_size
                    &&& solver.elitism() == settings.elitism
                    &&& solver.mutation_prob() == settings.mutation_prob
                    &&& solver.initial_angle() == settings.initial_angle
                    &&& solver.initial_thrust() == settings.initial_thrust
                },
            },
    {
        if !settings.elitism.in_unit_interval() {
            return Err(SolverError::ElitismOutOfRange);
        }
        if !settings.mutation_prob.in_unit_interval() {
            return Err(SolverError::MutationProbOutOfRange);
        }
        if settings.population_size < 2 {
            return Err(SolverError::PopulationTooSmall);
        }
        if settings.chromosome_size < 1 {
            return Err(SolverError::EmptyChromosome);
        }
        let kept: usize = settings.elitism.scale(settings.population_size);
        if (settings.population_size - kept) % 2 != 0 {
            return Err(SolverError::OddChildrenCount);
        }
        let mut population: Vec<Chromosome> = Vec::new();
        let mut i: usize = 0;
        while i < settings.population_size
            invariant
                i <= settings.population_size,
                population@.len() == i,
                forall|j: int|
                    0 <= j < i ==> sized(#[trigger] population@[j]@, settings.chromosome_size as int),
            decreases settings.population_size - i,
        {
            population.push(Chromosome::new_random(settings.chromosome_size, rng));
            i += 1;
        }
        let solver = Solver {
            population,
            chromosome_size: settings.chromosome_size,
            elitism: settings.elitism,
            mutation_prob: settings.mutation_prob,
            initial_angle: settings.initial_angle,
            initial_thrust: settings.initial_thrust,
        };
        Ok(solver)
    }

    /// The indices of the chromosomes that the next generation retains: the
    /// best by `fitness`, in the order of their rank.
    fn choose_parents(&self, fitness: &[Measure]) -> (parents: Vec<usize>)
        requires
            fitness@.len() == self.population().len(),
        ensures
            is_ranking(fitness@, ranking(fitness@)),
            parents@ == ranking(fitness@).take(retained(self.elitism(), self.population().len() as int)),
            parents@.len() == retained(self.elitism(), self.population().len() as int),
            parents@.len() <= self.population().len(),
    {
        proof {
            use_type_invariant(self);
        }
        let order: Vec<usize> = rank(fitness);
        let n_best: usize = self.elitism.scale(self.population.len());
        let mut parents: Vec<usize> = Vec::new();
        let mut k: usize = 0;
        while k < n_best
            invariant
                k <= n_best,
                n_best <= order@.len(),
                parents@ == order@.take(k as int),
            decreases n_best - k,
        {
            parents.push(order[k]);
            assert(order@.take(k as int).push(order@[k as int]) =~= order@.take(k + 1));
            k += 1;
        }
        parents
    }

    /// Breeds `n_children` chromosomes, rounded down to whole pairs. Each
    /// pair has two different parents, drawn from the whole population.
    fn mate(&self, n_children: usize, rng: &mut StdRng) -> (children: Vec<Chromosome>)
        ensures
            children@.len() == (n_children / 2) * 2,
            forall|m: int|
                0 <= m < n_children / 2 ==> #[trigger] pair_descends(
                    self.population(),
                    self.mutation_prob(),
                    genes_of(children@),
                    m,
                ),
            forall|c: int| 0 <= c < children@.len() ==> sized(#[trigger] children@[c]@, self.chromosome_size()),
    {
        proof {
            use_type_invariant(self);
        }
        let pairs: usize = n_children / 2;
        let candidates: Vec<usize> = indices(self.population.len());
        let mut children: Vec<Chromosome> = Vec::new();
        let mut m: usize = 0;
        while m < pairs
            invariant
                m <= pairs,
                pairs == n_children / 2,
                self.sound(),
                candidates@.len() == self.population@.len(),
                forall|i: int| 0 <= i < candidates@.len() ==> #[trigger] candidates@[i] == i,
                children@.len() == 2 * m,
                forall|j: int|
                    0 <= j < m ==> #[trigger] pair_descends(
                        self.population(),
                        self.mutation_prob(),
                        genes_of(children@),
                        j,
                    ),
                forall|c: int|
                    0 <= c < children@.len() ==> sized(#[trigger] children@[c]@, self.chromosome_size()),
            decreases pairs - m,
        {
            let chosen: Vec<usize> = choose_multiple(rng, &candidates, 2);
            proof {
                let at = choose|at: Seq<int>| picked(candidates@, at, chosen@);
                assert(chosen@[0] == candidates@[at[0]]);
                assert(chosen@[1] == candidates@[at[1]]);
                assert(at[0] != at[1]);
            }
            let one: usize = chosen[0];
            let other: usize = chosen[1];
            let cut = Fraction { num: gen_range(rng, 0, CROSS_POINT_RESOLUTION - 1), den: CROSS_POINT_RESOLUTION };
            proof {
                assert(sized(self.population()[one as int], self.chromosome_size()));
                assert(sized(self.population()[other as int], self.chromosome_size()));
            }
            let (mut first, mut second) = self.population[one].crossover(&self.population[other], cut).unwrap();
            let ghost crossed_first = first@;
            let ghost crossed_second = second@;
            let _ = first.mutate(self.mutation_prob, rng);
            let _ = second.mutate(self.mutation_prob, rng);
            let ghost before = genes_of(children@);
            proof {
                let parents = self.population();
                crossing_stays_within_steps(parents[one as int], parents[other as int], cut);
                crossing_stays_within_steps(parents[other as int], parents[one as int], cut);
                mutation_stays_within_steps(crossed_first, self.mutation_prob, first@);
                mutation_stays_within_steps(crossed_second, self.mutation_prob, second@);
                assert(bred(parents, self.mutation_prob(), one as int, other as int, cut, first@, second@));
            }
            let ghost first_genes = first@;
            let ghost second_genes = second@;
            children.push(first);
            children.push(second);
            proof {
                let after = genes_of(children@);
                assert(after[2 * m] == first_genes);
                assert(after[2 * m + 1] == second_genes);
                assert(pair_descends(self.population(), self.mutation_prob(), after, m as int));
                assert forall|j: int| 0 <= j < m implies #[trigger] pair_descends(
                    self.population(),
                    self.mutation_prob(),
                    after,
                    j,
                ) by {
                    assert(pair_descends(self.population(), self.mutation_prob(), before, j));
                    assert(after[2 * j] == before[2 * j]);
                    assert(after[2 * j + 1] == before[2 * j + 1]);
                }
            }
            m += 1;
        }
        children
    }

    /// Replaces the population by its next generation. The chromosomes are
    /// ranked by `fitness`, one value for each; the best are retained as they
    /// are, as many as the elitism asks for, and stand behind the children,
    /// which are bred from the whole population. A fitness vector of
    /// another length than the population is refused and nothing changes.
    pub fn new_generation(&mut self, fitness: &[Measure], rng: &mut StdRng) -> (r: Result<(), SolverError>)
        ensures
            final(self).sound(),
            final(self).population().len() == old(self).population().len(),
            final(self).chromosome_size() == old(self).chromosome_size(),
            final(self).elitism() == old(self).elitism(),
            final(self).mutation_prob() == old(self).mutation_prob(),
            final(self).initial_angle() == old(self).initial_angle(),
            final(self).initial_thrust() == old(self).initial_thrust(),
            fitness@.len() != old(self).population().len() <==> r == Err::<(), SolverError>(
                SolverError::FitnessLengthMismatch,
            ),
            fitness@.len() == old(self).population().len() <==> r is Ok,
            r is Err ==> final(self).population() == old(self).population(),
            r is Ok ==> renewed(
                old(self).population(),
                fitness@,
                retained(old(self).elitism(), old(self).population().len() as int),
                old(self).mutation_prob(),
                final(self).population(),
            ),
    {
        proof {
            use_type_invariant(&*self);
        }
        let len: usize = self.population.len();
        if fitness.len() != len {
            return Err(SolverError::FitnessLengthMismatch);
        }
        let parents: Vec<usize> = self.choose_parents(fitness);
        let n_best: usize = parents.len();
        let n_children: usize = len - n_best;
        let mut new_pop: Vec<Chromosome> = self.mate(n_children, rng);
        let ghost children = genes_of(new_pop@);
        let ghost before = self.population();
        let mut k: usize = 0;
        while k < n_best
            invariant
                k <= n_best,
                n_best == parents@.len(),
                n_best + n_children == len,
                len == self.population@.len(),
                before == self.population(),
                self.sound(),
                is_ranking(fitness@, ranking(fitness@)),
                fitness@.len() == len,
                parents@ == ranking(fitness@).take(n_best as int),
                new_pop@.len() == n_children + k,
                forall|c: int| 0 <= c < n_children ==> #[trigger] new_pop@[c]@ == children[c],
                forall|c: int| 0 <= c < new_pop@.len() ==> sized(#[trigger] new_pop@[c]@, self.chromosome_size()),
                forall|j: int|
                    0 <= j < k ==> #[trigger] new_pop@[n_children + j]@ == before[ranking(fitness@)[j] as int],
            decreases n_best - k,
        {
            let id: usize = parents[k];
            assert(id == ranking(fitness@)[k as int]);
            assert(sized(self.population()[id as int], self.chromosome_size()));
            new_pop.push(self.population[id].duplicate());
            k += 1;
        }
        let ghost after = genes_of(new_pop@);
        proof {
            assert forall|m: int| 0 <= m && 2 * m + 1 < n_children implies #[trigger] pair_descends(
                before,
                self.mutation_prob(),
                after,
                m,
            ) by {
                assert(pair_descends(before, self.mutation_prob(), children, m));
                assert(after[2 * m] == children[2 * m]);
                assert(after[2 * m + 1] == children[2 * m + 1]);
            }
            assert forall|j: int| 0 <= j < n_best implies #[trigger] after[len - n_best + j] == before[ranking(
                fitness@,
            )[j] as int] by {
                assert(new_pop@[n_children + j]@ == before[ranking(fitness@)[j] as int]);
            }
            assert forall|i: int| 0 <= i < after.len() implies sized(
                #[trigger] after[i],
                self.chromosome_size(),
            ) by {
                assert(sized(new_pop@[i]@, self.chromosome_size()));
            }
        }
        self.population = new_pop;
        Ok(())
    }

    /// The commands that each chromosome stands for: its changes added up
    /// from the initial angle and thrust.
    pub fn iter_accumulated_population(&self) -> (r: Vec<Chromosome>)
        ensures
            self.sound(),
            r@.len() == self.population().len(),
            forall|i: int|
                0 <= i < r@.len() ==> #[trigger] r@[i]@ == accumulation(
                    self.population()[i],
                    self.initial_angle(),
                    self.initial_thrust(),
                ),
    {
        proof {
            use_type_invariant(self);
        }
        let n: usize = self.population.len();
        let mut r: Vec<Chromosome> = Vec::new();
        let mut i: usize = 0;
        while i < n
            invariant
                i <= n,
                n == self.population@.len(),
                r@.len() == i,
                forall|j: int|
                    0 <= j < i ==> #[trigger] r@[j]@ == accumulation(
                        self.population()[j],
                        self.initial_angle(),
                        self.initial_thrust(),
                    ),
            decreases n - i,
        {
            let source: &Chromosome = &self.population[i];
            let chromosome = Chromosome {
                angles: accumulated(self.initial_angle, source.angles.as_slice(), angle_range()),
                thrusts: accumulated(self.initial_thrust, source.thrusts.as_slice(), thrust_range()),
            };
            r.push(chromosome);
            i += 1;
        }
        r
    }

    /// The chromosomes as they are stored.
    pub fn iter_population(&self) -> (r: &Vec<Chromosome>)
        ensures
            self.sound(),
            genes_of(r@) == self.population(),
    {
        proof {
            use_type_invariant(self);
        }
        &self.population
    }
}

} // verus!
