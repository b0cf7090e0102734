//! Candidate genomes: one interaction-rule matrix, one radius vector and a
//! fitness score, together with sampling, crossover and mutation.
//!
//! Rule coefficients are milli-units in `[-RULE_LIMIT, RULE_LIMIT]`
//! (i.e. [-1, 1]); radii are milli-units in `[RADIUS_FLOOR, RADIUS_CEIL]`
//! (i.e. [10, 200]); fitness is micro-units.

use vstd::prelude::*;

use crate::fixed::clamp_int;
use crate::fixed::clamp64;
use crate::rng::{rng_range, rng_ratio};

verus! {

/// Largest magnitude of a rule coefficient (1.0).
pub const RULE_LIMIT: i64 = 1_000;

/// Smallest radius a genome may carry (10.0).
pub const RADIUS_FLOOR: i64 = 10_000;

/// Largest radius a genome may carry (200.0).
pub const RADIUS_CEIL: i64 = 200_000;

/// Smallest initially sampled radius (20.0).
pub const RADIUS_INIT_LO: i64 = 20_000;

/// Largest initially sampled radius (100.0).
pub const RADIUS_INIT_HI: i64 = 100_000;

/// Largest magnitude of a rule perturbation (0.1).
pub const RULE_MUTATION_SPAN: i64 = 100;

/// Largest magnitude of a radius perturbation (5.0).
pub const RADIUS_MUTATION_SPAN: i64 = 5_000;

/// A candidate configuration: rules, radii and the score it earned.
#[derive(Debug)]
pub struct Genome {
    pub rules: Vec<i64>,
    pub radii: Vec<i64>,
    pub fitness: i64,
}

/// The mathematical value of a genome.
pub ghost struct GenomeView {
    pub rules: Seq<i64>,
    pub radii: Seq<i64>,
    pub fitness: i64,
}

impl View for Genome {
    type V = GenomeView;

    open spec fn view(&self) -> GenomeView {
        GenomeView { rules: self.rules@, radii: self.radii@, fitness: self.fitness }
    }
}

/// A genome shaped for `species_count` species, with every gene in range.
pub open spec fn genome_wf(g: GenomeView, species_count: int) -> bool {
    &&& g.rules.len() == species_count * species_count
    &&& g.radii.len() == species_count
    &&& forall|i: int| 0 <= i < g.rules.len() ==> -RULE_LIMIT <= #[trigger] g.rules[i] <= RULE_LIMIT
    &&& forall|i: int|
        0 <= i < g.radii.len() ==> RADIUS_FLOOR <= #[trigger] g.radii[i] <= RADIUS_CEIL
}

/// An element-wise copy of a gene vector.
pub fn copy_genes(v: &Vec<i64>) -> (r: Vec<i64>)
    ensures
        r@ == v@,
{
    let mut out: Vec<i64> = Vec::new();
    let mut i: usize = 0;
    while i < v.len()
        invariant
            i <= v@.len(),
            out@.len() == i,
            forall|m: int| 0 <= m < i ==> #[trigger] out@[m] == v@[m],
        decreases v@.len() - i,
    {
        out.push(v[i]);
        i += 1;
    }
    proof {
        assert(out@ =~= v@);
    }
    out
}

/// A field-for-field copy of a genome.
pub fn clone_genome(g: &Genome) -> (r: Genome)
    ensures
        r@ == g@,
{
    Genome { rules: copy_genes(&g.rules), radii: copy_genes(&g.radii), fitness: g.fitness }
}

/// Sample a fresh genome: rules uniform in `[-1, 1]`, radii uniform in
/// `[20, 100]`, fitness zero.
pub fn sample_genome(species_count: usize, rng: &mut rand::rngs::StdRng) -> (g: Genome)
    requires
        1 <= species_count,
        species_count * species_count <= usize::MAX,
    ensures
        genome_wf(g@, species_count as int),
        g@.fitness == 0,
        forall|i: int|
            0 <= i < g@.radii.len() ==> RADIUS_INIT_LO <= #[trigger] g@.radii[i] <= RADIUS_INIT_HI,
{
    let gene_count: usize = species_count * species_count;
    let mut rules: Vec<i64> = Vec::new();
    let mut i: usize = 0;
    while i < gene_count
        invariant
            i <= gene_count,
            rules@.len() == i,
            forall|m: int| 0 <= m < i ==> -RULE_LIMIT <= #[trigger] rules@[m] <= RULE_LIMIT,
        decreases gene_count - i,
    {
        rules.push(rng_range(rng, -RULE_LIMIT, RULE_LIMIT));
        i += 1;
    }
    let mut radii: Vec<i64> = Vec::new();
    let mut s: usize = 0;
    while s < species_count
        invariant
            s <= species_count,
            radii@.len() == s,
            forall|m: int| 0 <= m < s ==> RADIUS_INIT_LO <= #[trigger] radii@[m] <= RADIUS_INIT_HI,
        decreases species_count - s,
    {
        radii.push(rng_range(rng, RADIUS_INIT_LO, RADIUS_INIT_HI));
        s += 1;
    }
    Genome { rules, radii, fitness: 0 }
}

/// Uniform per-gene crossover against a fixed pair of parents: every gene of
/// the child equals, position for position, the gene of one parent or the
/// other, each chosen by an independent coin flip. The child keeps the first
/// parent's fitness.
pub fn crossover_genomes(e1: &Genome, e2: &Genome, rng: &mut rand::rngs::StdRng) -> (child: Genome)
    requires
        e1@.rules.len() == e2@.rules.len(),
        e1@.radii.len() == e2@.radii.len(),
    ensures
        child@.rules.len() == e1@.rules.len(),
        child@.radii.len() == e1@.radii.len(),
        child@.fitness == e1@.fitness,
        forall|j: int|
            0 <= j < child@.rules.len()
                ==> #[trigger] child@.rules[j] == e1@.rules[j] || child@.rules[j] == e2@.rules[j],
        forall|j: int|
            0 <= j < child@.radii.len()
                ==> #[trigger] child@.radii[j] == e1@.radii[j] || child@.radii[j] == e2@.radii[j],
{
    let mut rules = copy_genes(&e1.rules);
    let mut j: usize = 0;
    while j < rules.len()
        invariant
            j <= rules@.len(),
            rules@.len() == e1@.rules.len(),
            e1@.rules.len() == e2@.rules.len(),
            forall|m: int|
                0 <= m < rules@.len()
                    ==> #[trigger] rules@[m] == e1@.rules[m] || rules@[m] == e2@.rules[m],
        decreases rules@.len() - j,
    {
        if rng_ratio(rng, 1, 2) {
            let v = e2.rules[j];
            rules.set(j, v);
        }
        j += 1;
    }
    let mut radii = copy_genes(&e1.radii);
    let mut k: usize = 0;
    while k < radii.len()
        invariant
            k <= radii@.len(),
            radii@.len() == e1@.radii.len(),
            e1@.radii.len() == e2@.radii.len(),
            forall|m: int|
                0 <= m < radii@.len()
                    ==> #[trigger] radii@[m] == e1@.radii[m] || radii@[m] == e2@.radii[m],
        decreases radii@.len() - k,
    {
        if rng_ratio(rng, 1, 2) {
            let v = e2.radii[k];
            radii.set(k, v);
        }
        k += 1;
    }
    Genome { rules, radii, fitness: e1.fitness }
}

/// A gene is either untouched or was perturbed by at most `span` and clamped
/// into `[lo, hi]`: the new value then lies between the clamped extremes of
/// the perturbation.
pub open spec fn mutated_gene(new: i64, old: i64, span: int, lo: int, hi: int) -> bool {
    new == old || (clamp_int(old - span, lo, hi) <= new <= clamp_int(old + span, lo, hi))
}

/// Independent per-gene mutation: each gene is, with a fixed 5% probability,
/// perturbed by a uniform amount and clamped back into its range.
pub fn mutate_genome(g: &mut Genome, rng: &mut rand::rngs::StdRng)
    requires
        forall|i: int|
            0 <= i < old(g)@.rules.len() ==> -RULE_LIMIT <= #[trigger] old(g)@.rules[i] <= RULE_LIMIT,
        forall|i: int|
            0 <= i < old(g)@.radii.len()
                ==> RADIUS_FLOOR <= #[trigger] old(g)@.radii[i] <= RADIUS_CEIL,
    ensures
        final(g)@.rules.len() == old(g)@.rules.len(),
        final(g)@.radii.len() == old(g)@.radii.len(),
        final(g)@.fitness == old(g)@.fitness,
        forall|j: int|
            0 <= j < old(g)@.rules.len()
                ==> mutated_gene(
                    #[trigger] final(g)@.rules[j],
                    old(g)@.rules[j],
                    RULE_MUTATION_SPAN as int,
                    -RULE_LIMIT as int,
                    RULE_LIMIT as int,
                ),
        forall|j: int|
            0 <= j < old(g)@.radii.len()
                ==> mutated_gene(
                    #[trigger] final(g)@.radii[j],
                    old(g)@.radii[j],
                    RADIUS_MUTATION_SPAN as int,
                    RADIUS_FLOOR as int,
                    RADIUS_CEIL as int,
                ),
        forall|j: int|
            0 <= j < final(g)@.rules.len()
                ==> -RULE_LIMIT <= #[trigger] final(g)@.rules[j] <= RULE_LIMIT,
        forall|j: int|
            0 <= j < final(g)@.radii.len()
                ==> RADIUS_FLOOR <= #[trigger] final(g)@.radii[j] <= RADIUS_CEIL,
{
    let mut j: usize = 0;
    let rule_len = g.rules.len();
    while j < rule_len
        invariant
            j <= g.rules@.len(),
            rule_len == g.rules@.len(),
            g.rules@.len() == old(g)@.rules.len(),
            g.radii@ == old(g)@.radii,
            g.fitness == old(g)@.fitness,
            forall|m: int|
                0 <= m < old(g)@.rules.len()
                    ==> -RULE_LIMIT <= #[trigger] old(g)@.rules[m] <= RULE_LIMIT,
            forall|m: int|
                0 <= m < j
                    ==> mutated_gene(
                        #[trigger] g.rules@[m],
                        old(g)@.rules[m],
                        RULE_MUTATION_SPAN as int,
                        -RULE_LIMIT as int,
                        RULE_LIMIT as int,
                    ),
            forall|m: int| j <= m < g.rules@.len() ==> #[trigger] g.rules@[m] == old(g)@.rules[m],
            forall|m: int| 0 <= m < g.rules@.len() ==> -RULE_LIMIT <= #[trigger] g.rules@[m] <= RULE_LIMIT,
        decreases rule_len - j,
    {
        if rng_ratio(rng, 1, 20) {
            let delta = rng_range(rng, -RULE_MUTATION_SPAN, RULE_MUTATION_SPAN);
            let v = clamp64(g.rules[j] + delta, -RULE_LIMIT, RULE_LIMIT);
            g.rules.set(j, v);
            proof {
                assert(g.rules@[j as int] == clamp_int(
                    old(g)@.rules[j as int] + delta as int,
                    -RULE_LIMIT as int,
                    RULE_LIMIT as int,
                ));
            }
        }
        j += 1;
    }
    let mut k: usize = 0;
    let radius_len = g.radii.len();
    while k < radius_len
        invariant
            k <= g.radii@.len(),
            radius_len == g.radii@.len(),
            g.radii@.len() == old(g)@.radii.len(),
            g.rules@.len() == old(g)@.rules.len(),
            g.fitness == old(g)@.fitness,
            forall|m: int|
                0 <= m < old(g)@.radii.len()
                    ==> RADIUS_FLOOR <= #[trigger] old(g)@.radii[m] <= RADIUS_CEIL,
            forall|m: int|
                0 <= m < old(g)@.rules.len()
                    ==> mutated_gene(
                        #[trigger] g.rules@[m],
                        old(g)@.rules[m],
                        RULE_MUTATION_SPAN as int,
                        -RULE_LIMIT as int,
                        RULE_LIMIT as int,
                    ),
            forall|m: int| 0 <= m < g.rules@.len() ==> -RULE_LIMIT <= #[trigger] g.rules@[m] <= RULE_LIMIT,
            forall|m: int|
                0 <= m < k
                    ==> mutated_gene(
                        #[trigger] g.radii@[m],
                        old(g)@.radii[m],
                        RADIUS_MUTATION_SPAN as int,
                        RADIUS_FLOOR as int,
                        RADIUS_CEIL as int,
                    ),
            forall|m: int| k <= m < g.radii@.len() ==> #[trigger] g.radii@[m] == old(g)@.radii[m],
            forall|m: int|
                0 <= m < g.radii@.len() ==> RADIUS_FLOOR <= #[trigger] g.radii@[m] <= RADIUS_CEIL,
        decreases radius_len - k,
    {
        if rng_ratio(rng, 1, 20) {
            let delta = rng_range(rng, -RADIUS_MUTATION_SPAN, RADIUS_MUTATION_SPAN);
            let v = clamp64(g.radii[k] + delta, RADIUS_FLOOR, RADIUS_CEIL);
            g.radii.set(k, v);
            proof {
                assert(g.radii@[k as int] == clamp_int(
                    old(g)@.radii[k as int] + delta as int,
                    RADIUS_FLOOR as int,
                    RADIUS_CEIL as int,
                ));
            }
        }
        k += 1;
    }
}

} // verus!
