//! A candidate command sequence.

use rand::rngs::StdRng;
use vstd::prelude::*;
use crate::fraction::Fraction;
use crate::genes::{angle_step_range, blend, clamp, crossed, mix, thrust_step_range, CrossError, GeneRange};
use crate::physics::Command;
use crate::random::gen_range;

verus! {

/// The genes of a chromosome as plain sequences.
pub struct Genes {
    pub angles: Seq<i32>,
    pub thrusts: Seq<i32>,
}

/// A sequence of gene pairs, one tilt angle and one thrust level per tick.
/// Stored chromosomes hold the change from one tick to the next; accumulated
/// chromosomes hold the commands themselves.
#[derive(Clone, Debug)]
pub struct Chromosome {
    pub angles: Vec<i32>,
    pub thrusts: Vec<i32>,
}

impl View for Chromosome {
    type V = Genes;

    open spec fn view(&self) -> Genes {
        Genes { angles: self.angles@, thrusts: self.thrusts@ }
    }
}

/// The genes of each chromosome of `chromosomes`, in their order.
pub open spec fn genes_of(chromosomes: Seq<Chromosome>) -> Seq<Genes> {
    chromosomes.map_values(|c: Chromosome| c@)
}

/// A copy of `v`.
fn copy_of(v: &Vec<i32>) -> (r: Vec<i32>)
    ensures
        r@ == v@,
{
    let mut r: Vec<i32> = Vec::new();
    let mut i: usize = 0;
    while i < v.len()
        invariant
            i <= v.len(),
            r@ == v@.take(i as int),
        decreases v.len() - i,
    {
        r.push(v[i]);
        i += 1;
    }
    r
}

/// Why two chromosomes could not be crossed.
#[derive(Clone, Copy, Debug, PartialEq, Eq, Structural)]
pub enum CrossoverError {
    /// The angles could not be crossed.
    Angles(CrossError),
    /// The thrusts could not be crossed.
    Thrusts(CrossError),
}

/// A fresh gene, drawn from `range`. The range must not be empty.
fn new_random_gene(rng: &mut StdRng, range: GeneRange) -> (gene: i32)
    requires
        range.start <= range.end,
    ensures
        range.holds(gene as int),
{
    gen_range(rng, range.start as i64, range.end as i64) as i32
}

/// A fresh change of the tilt angle.
pub fn new_random_angle(rng: &mut StdRng) -> (gene: i32)
    ensures
        angle_step_range().holds(gene as int),
{
    new_random_gene(rng, angle_step_range())
}

/// A fresh change of the thrust level.
pub fn new_random_thrust(rng: &mut StdRng) -> (gene: i32)
    ensures
        thrust_step_range().holds(gene as int),
{
    new_random_gene(rng, thrust_step_range())
}

/// Whether every gene of `genes` is a change that one tick may bring.
pub open spec fn within_steps(genes: Genes) -> bool {
    &&& forall|k: int| 0 <= k < genes.angles.len() ==> angle_step_range().holds(#[trigger] genes.angles[k] as int)
    &&& forall|k: int|
        0 <= k < genes.thrusts.len() ==> thrust_step_range().holds(#[trigger] genes.thrusts[k] as int)
}

/// What a mutation may do to the gene pair at `k`: leave both genes alone, or
/// replace both by changes that one tick may bring.
pub open spec fn kept_or_redrawn(before: Genes, after: Genes, k: int) -> bool {
    ||| after.angles[k] == before.angles[k] && after.thrusts[k] == before.thrusts[k]
    ||| angle_step_range().holds(after.angles[k] as int) && thrust_step_range().holds(after.thrusts[k] as int)
}

/// The first child of the crossover of `a` with `b` at `cut`; the second is
/// the first child of the crossover of `b` with `a`.
pub open spec fn crossing(a: Genes, b: Genes, cut: Fraction) -> Genes {
    Genes {
        angles: mix(a.angles, b.angles, cut, angle_step_range()),
        thrusts: mix(a.thrusts, b.thrusts, cut, thrust_step_range()),
    }
}

/// A child of a crossover is as long as its first parent, and its genes are
/// changes that one tick may bring.
pub proof fn crossing_stays_within_steps(a: Genes, b: Genes, cut: Fraction)
    ensures
        crossing(a, b, cut).angles.len() == a.angles.len(),
        crossing(a, b, cut).thrusts.len() == a.thrusts.len(),
        within_steps(crossing(a, b, cut)),
{
    let child = crossing(a, b, cut);
    assert forall|k: int| 0 <= k < child.angles.len() implies angle_step_range().holds(
        #[trigger] child.angles[k] as int,
    ) by {
        angle_step_range().clamp_lands(blend(a.angles[k] as int, b.angles[k] as int, cut));
    }
    assert forall|k: int| 0 <= k < child.thrusts.len() implies thrust_step_range().holds(
        #[trigger] child.thrusts[k] as int,
    ) by {
        thrust_step_range().clamp_lands(blend(a.thrusts[k] as int, b.thrusts[k] as int, cut));
    }
}

/// `genes` with the pair at `k` replaced by `angle` and `thrust`, each brought
/// into the changes that one tick may bring.
pub open spec fn replaced(genes: Genes, k: int, angle: i32, thrust: i32) -> Genes {
    Genes {
        angles: genes.angles.update(k, angle_step_range().clamp(angle as int) as i32),
        thrusts: genes.thrusts.update(k, thrust_step_range().clamp(thrust as int) as i32),
    }
}

/// What the draw `draw` makes of `genes` at the pair `k`: a draw below the
/// numerator of `prob` replaces the pair by `angle` and `thrust`, any other
/// draw leaves the genes as they are.
pub open spec fn redrawn(genes: Genes, k: int, draw: i64, prob: Fraction, angle: i32, thrust: i32) -> Genes {
    if draw < prob.num {
        replaced(genes, k, angle, thrust)
    } else {
        genes
    }
}

/// What a mutation with probability `prob` may make of `before`: the
/// lengths stay; each gene pair is kept or redrawn; a gene without a partner
/// is kept; with probability 0 every pair is kept, and with probability 1
/// every pair is redrawn.
pub open spec fn mutated(before: Genes, prob: Fraction, after: Genes) -> bool {
    &&& after.angles.len() == before.angles.len()
    &&& after.thrusts.len() == before.thrusts.len()
    &&& forall|k: int|
        0 <= k < before.angles.len() && k < before.thrusts.len() ==> #[trigger] kept_or_redrawn(before, after, k)
    &&& forall|k: int|
        before.thrusts.len() <= k < before.angles.len() ==> #[trigger] after.angles[k] == before.angles[k]
    &&& forall|k: int|
        before.angles.len() <= k < before.thrusts.len() ==> #[trigger] after.thrusts[k] == before.thrusts[k]
    &&& prob.num == 0 ==> after.angles =~= before.angles && after.thrusts =~= before.thrusts
    &&& prob.num == prob.den ==> forall|k: int|
        0 <= k < before.angles.len() && k < before.thrusts.len() ==> {
            &&& angle_step_range().holds(#[trigger] after.angles[k] as int)
            &&& thrust_step_range().holds(after.thrusts[k] as int)
        }
}

/// A mutation keeps the genes within the changes that one tick may bring.
pub proof fn mutation_stays_within_steps(before: Genes, prob: Fraction, after: Genes)
    requires
        within_steps(before),
        mutated(before, prob, after),
    ensures
        within_steps(after),
{
    assert forall|k: int| 0 <= k < after.angles.len() implies angle_step_range().holds(
        #[trigger] after.angles[k] as int,
    ) by {
        if k < before.thrusts.len() {
            assert(kept_or_redrawn(before, after, k));
        }
    }
    assert forall|k: int| 0 <= k < after.thrusts.len() implies thrust_step_range().holds(
        #[trigger] after.thrusts[k] as int,
    ) by {
        if k < before.angles.len() {
            assert(kept_or_redrawn(before, after, k));
        }
    }
}

impl Chromosome {
    /// A chromosome of `size` gene pairs, each gene drawn from the changes
    /// that one tick may bring.
    pub fn new_random(size: usize, rng: &mut StdRng) -> (r: Self)
        ensures
            r@.angles.len() == size,
            r@.thrusts.len() == size,
            within_steps(r@),
    {
        let mut angles: Vec<i32> = Vec::new();
        let mut i: usize = 0;
        while i < size
            invariant
                i <= size,
                angles@.len() == i,
                forall|k: int| 0 <= k < i ==> angle_step_range().holds(#[trigger] angles@[k] as int),
            decreases size - i,
        {
            angles.push(new_random_angle(rng));
            i += 1;
        }
        let mut thrusts: Vec<i32> = Vec::new();
        let mut j: usize = 0;
        while j < size
            invariant
                j <= size,
                thrusts@.len() == j,
                forall|k: int| 0 <= k < j ==> thrust_step_range().holds(#[trigger] thrusts@[k] as int),
            decreases size - j,
        {
            thrusts.push(new_random_thrust(rng));
            j += 1;
        }
        Chromosome { angles, thrusts }
    }

    /// Arithmetic crossover with `other` at `cross_point`: the angles and the
    /// thrusts are crossed apart, each clamped to the changes that one tick
    /// may bring. The angles are judged first.
    pub fn crossover(&self, other: &Self, cross_point: Fraction) -> (r: Result<(Self, Self), CrossoverError>)
        ensures
            self@.angles.len() != other@.angles.len() ==> r == Err::<(Self, Self), CrossoverError>(
                CrossoverError::Angles(
                    CrossError::LengthMismatch { left: self.angles.len(), right: other.angles.len() },
                ),
            ),
            self@.angles.len() == other@.angles.len() && !cross_point.is_unit() ==> r == Err::<
                (Self, Self),
                CrossoverError,
            >(CrossoverError::Angles(CrossError::CrossPointOutOfRange)),
            self@.angles.len() == other@.angles.len() && cross_point.is_unit() && self@.thrusts.len()
                != other@.thrusts.len() ==> r == Err::<(Self, Self), CrossoverError>(
                CrossoverError::Thrusts(
                    CrossError::LengthMismatch { left: self.thrusts.len(), right: other.thrusts.len() },
                ),
            ),
            self@.angles.len() == other@.angles.len() && cross_point.is_unit() && self@.thrusts.len()
                == other@.thrusts.len() ==> r is Ok,
            r matches Ok((first, second)) ==> {
                &&& first@ == crossing(self@, other@, cross_point)
                &&& second@ == crossing(other@, self@, cross_point)
            },
    {
        let (angles_a, angles_b) = match crossed(
            self.angles.as_slice(),
            other.angles.as_slice(),
            cross_point,
            angle_step_range(),
        ) {
            Ok(pair) => pair,
            Err(e) => {
                return Err(CrossoverError::Angles(e));
            },
        };
        let (thrusts_a, thrusts_b) = match crossed(
            self.thrusts.as_slice(),
            other.thrusts.as_slice(),
            cross_point,
            thrust_step_range(),
        ) {
            Ok(pair) => pair,
            Err(e) => {
                return Err(CrossoverError::Thrusts(e));
            },
        };
        Ok(
            (
                Chromosome { angles: angles_a, thrusts: thrusts_a },
                Chromosome { angles: angles_b, thrusts: thrusts_b },
            ),
        )
    }

    /// The mutation of one gene pair, once the dice have been cast. `draw` is
    /// one of as many equally likely numbers, counted from 0, as the
    /// denominator of `mutation_prob` says: when it falls below the numerator,
    /// the pair at `k` is replaced by the fresh genes `angle` and `thrust`,
    /// each brought into the changes that one tick may bring; otherwise the
    /// chromosome stays as it is.
    pub fn redraw(&mut self, k: usize, draw: i64, mutation_prob: Fraction, angle: i32, thrust: i32)
        requires
            k < old(self)@.angles.len(),
            k < old(self)@.thrusts.len(),
        ensures
            final(self)@ == redrawn(old(self)@, k as int, draw, mutation_prob, angle, thrust),
    {
        if draw < mutation_prob.num {
            self.angles[k] = clamp(angle, angle_step_range());
            self.thrusts[k] = clamp(thrust, thrust_step_range());
        }
    }

    /// Mutation: each gene pair is, with probability `mutation_prob` and
    /// apart from the others, replaced by a fresh pair. For each pair the
    /// dice are cast and two fresh genes are drawn, and `redraw` does the
    /// rest. A `mutation_prob` that is no number between 0 and 1 is refused
    /// and nothing is changed.
    pub fn mutate(&mut self, mutation_prob: Fraction, rng: &mut StdRng) -> (r: Option<()>)
        ensures
            r is Some <==> mutation_prob.is_unit(),
            r is None ==> final(self)@ == old(self)@,
            r is Some ==> mutated(old(self)@, mutation_prob, final(self)@),
    {
        if !mutation_prob.in_unit_interval() {
            return None;
        }
        let n: usize = if self.angles.len() < self.thrusts.len() {
            self.angles.len()
        } else {
            self.thrusts.len()
        };
        let mut k: usize = 0;
        while k < n
            invariant
                k <= n,
                n <= self.angles@.len(),
                n <= self.thrusts@.len(),
                n == old(self).angles@.len() || n == old(self).thrusts@.len(),
                mutation_prob.is_unit(),
                self.angles@.len() == old(self).angles@.len(),
                self.thrusts@.len() == old(self).thrusts@.len(),
                mutation_prob.num == 0 ==> self@ == old(self)@,
                forall|j: int| 0 <= j < k ==> #[trigger] kept_or_redrawn(old(self)@, self@, j),
                forall|j: int| k <= j < self.angles@.len() ==> #[trigger] self.angles@[j] == old(self).angles@[j],
                forall|j: int|
                    k <= j < self.thrusts@.len() ==> #[trigger] self.thrusts@[j] == old(self).thrusts@[j],
                mutation_prob.num == mutation_prob.den ==> forall|j: int|
                    0 <= j < k ==> {
                        &&& angle_step_range().holds(#[trigger] self.angles@[j] as int)
                        &&& thrust_step_range().holds(self.thrusts@[j] as int)
                    },
            decreases n - k,
        {
            let ghost before = self@;
            let draw: i64 = gen_range(rng, 0, mutation_prob.den - 1);
            let angle: i32 = new_random_angle(rng);
            let thrust: i32 = new_random_thrust(rng);
            self.redraw(k, draw, mutation_prob, angle, thrust);
            proof {
                angle_step_range().clamp_lands(angle as int);
                thrust_step_range().clamp_lands(thrust as int);
            }
            assert forall|j: int| 0 <= j <= k implies #[trigger] kept_or_redrawn(old(self)@, self@, j) by {
                if j < k {
                    assert(kept_or_redrawn(old(self)@, before, j));
                }
            }
            proof {
                if mutation_prob.num == mutation_prob.den {
                    assert forall|j: int| 0 <= j <= k implies {
                        &&& angle_step_range().holds(#[trigger] self.angles@[j] as int)
                        &&& thrust_step_range().holds(self.thrusts@[j] as int)
                    } by {
                        if j < k {
                            assert(angle_step_range().holds(before.angles[j] as int));
                        }
                    }
                }
            }
            k += 1;
        }
        Some(())
    }

    /// The command at position `id`, where both genes exist.
    pub open spec fn cmd_at(self, id: int) -> Option<Command> {
        if 0 <= id < self.angles.len() && id < self.thrusts.len() {
            Some(Command { angle: self.angles[id], power: self.thrusts[id] })
        } else {
            None
        }
    }

    /// The command made of the last angle and the last thrust, where there
    /// is one of each.
    pub open spec fn last_cmd(self) -> Option<Command> {
        if self.angles.len() > 0 && self.thrusts.len() > 0 {
            Some(Command { angle: self.angles@.last(), power: self.thrusts@.last() })
        } else {
            None
        }
    }

    /// The command at position `id`.
    pub fn get_cmd(&self, id: usize) -> (cmd: Option<Command>)
        ensures
            cmd == self.cmd_at(id as int),
    {
        if id < self.angles.len() && id < self.thrusts.len() {
            Some(Command::new(self.angles[id], self.thrusts[id]))
        } else {
            None
        }
    }

    /// The last command.
    pub fn get_last_cmd(&self) -> (cmd: Option<Command>)
        ensures
            cmd == self.last_cmd(),
    {
        if self.angles.len() > 0 && self.thrusts.len() > 0 {
            Some(Command::new(self.angles[self.angles.len() - 1], self.thrusts[self.thrusts.len() - 1]))
        } else {
            None
        }
    }

    /// A chromosome with the same genes.
    pub fn duplicate(&self) -> (r: Self)
        ensures
            r@ == self@,
    {
        Chromosome { angles: copy_of(&self.angles), thrusts: copy_of(&self.thrusts) }
    }
}

} // verus!
