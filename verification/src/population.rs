//! The evolving population: a fixed-size ordered collection of genomes, the
//! species count, and a generation counter.
//!
//! Selection sorts the genomes descending by fitness — stably, so that equal
//! scores keep their original order — keeps the top two verbatim ("elites"),
//! and rebuilds every other slot by uniform crossover of the two elites
//! followed by independent per-gene mutation.

use vstd::prelude::*;

use crate::genome::{
    clone_genome, crossover_genomes, genome_wf, mutate_genome, mutated_gene, sample_genome,
    Genome, GenomeView, RADIUS_CEIL, RADIUS_FLOOR, RADIUS_MUTATION_SPAN, RULE_LIMIT,
    RULE_MUTATION_SPAN,
};
use crate::rng::rng_ratio;

verus! {

/// The mathematical values of a sequence of genomes.
pub open spec fn views(s: Seq<Genome>) -> Seq<GenomeView> {
    s.map_values(|g: Genome| g@)
}

/// Fitness never increases along the sequence.
pub open spec fn sorted_desc(s: Seq<GenomeView>) -> bool {
    forall|i: int, j: int| 0 <= i < j < s.len() ==> (#[trigger] s[i]).fitness >= (#[trigger] s[j]).fitness
}

/// Where a genome of fitness `f` lands in `s`: after every entry whose
/// fitness is at least `f`, so that an entry inserted later never overtakes
/// an equal earlier one.
pub open spec fn insert_pos(s: Seq<GenomeView>, f: i64) -> int
    decreases s.len(),
{
    if s.len() == 0 {
        0
    } else if s[0].fitness < f {
        0
    } else {
        1 + insert_pos(s.drop_first(), f)
    }
}

/// `g` inserted into `s` at its stable descending position.
pub open spec fn insert_desc(s: Seq<GenomeView>, g: GenomeView) -> Seq<GenomeView> {
    s.insert(insert_pos(s, g.fitness), g)
}

/// The stable descending sort of `s` by fitness: genomes are taken in their
/// original order and each is placed after all entries at least as fit.
pub open spec fn sort_desc(s: Seq<GenomeView>) -> Seq<GenomeView>
    decreases s.len(),
{
    if s.len() == 0 {
        Seq::empty()
    } else {
        insert_desc(sort_desc(s.drop_last()), s.last())
    }
}

pub proof fn lemma_insert_pos_bounds(s: Seq<GenomeView>, f: i64)
    ensures
        0 <= insert_pos(s, f) <= s.len(),
        forall|m: int| 0 <= m < insert_pos(s, f) ==> (#[trigger] s[m]).fitness >= f,
        insert_pos(s, f) < s.len() ==> s[insert_pos(s, f)].fitness < f,
    decreases s.len(),
{
    if s.len() == 0 {
    } else if s[0].fitness < f {
    } else {
        lemma_insert_pos_bounds(s.drop_first(), f);
        assert forall|m: int| 0 <= m < insert_pos(s, f) implies (#[trigger] s[m]).fitness >= f by {
            if m > 0 {
                assert(s.drop_first()[m - 1] == s[m]);
            }
        }
        if insert_pos(s, f) < s.len() {
            assert(s.drop_first()[insert_pos(s, f) - 1] == s[insert_pos(s, f)]);
        }
    }
}

/// `insert_pos` is the only position with sorted entries at least `f` on its
/// left and a smaller entry (if any) at it.
pub proof fn lemma_insert_pos_unique(s: Seq<GenomeView>, f: i64, k: int)
    requires
        0 <= k <= s.len(),
        forall|m: int| 0 <= m < k ==> (#[trigger] s[m]).fitness >= f,
        k < s.len() ==> s[k].fitness < f,
    ensures
        insert_pos(s, f) == k,
    decreases s.len(),
{
    if s.len() == 0 {
    } else if s[0].fitness < f {
        assert(k == 0);
    } else {
        assert(k >= 1);
        assert forall|m: int| 0 <= m < k - 1 implies (#[trigger] s.drop_first()[m]).fitness >= f by {
            assert(s.drop_first()[m] == s[m + 1]);
        }
        if k - 1 < s.drop_first().len() {
            assert(s.drop_first()[k - 1] == s[k]);
        }
        lemma_insert_pos_unique(s.drop_first(), f, k - 1);
    }
}

/// Inserting at the stable position keeps the sequence sorted.
pub proof fn lemma_insert_desc_sorted(s: Seq<GenomeView>, g: GenomeView)
    requires
        sorted_desc(s),
    ensures
        sorted_desc(insert_desc(s, g)),
        insert_desc(s, g).len() == s.len() + 1,
{
    lemma_insert_pos_bounds(s, g.fitness);
    let pos = insert_pos(s, g.fitness);
    s.insert_ensures(pos, g);
    let t = insert_desc(s, g);
    assert forall|i: int, j: int| 0 <= i < j < t.len() implies (#[trigger] t[i]).fitness >= (
    #[trigger] t[j]).fitness by {
        if i < pos {
            assert(t[i] == s[i]);
        } else if i == pos {
            assert(t[i] == g);
        } else {
            assert(t[i] == s[i - 1]);
        }
        if j < pos {
            assert(t[j] == s[j]);
        } else if j == pos {
            assert(t[j] == g);
        } else {
            assert(t[j] == s[j - 1]);
        }
    }
}

/// Inserting adds exactly the inserted genome to the contents.
pub proof fn lemma_insert_to_multiset(s: Seq<GenomeView>, pos: int, g: GenomeView)
    requires
        0 <= pos <= s.len(),
    ensures
        s.insert(pos, g).to_multiset() =~= s.to_multiset().insert(g),
{
    let t = s.insert(pos, g);
    s.insert_ensures(pos, g);
    t.to_multiset_ensures();
    s.to_multiset_ensures();
    assert(t.remove(pos) =~= s);
    assert(t.remove(pos).to_multiset() =~= t.to_multiset().remove(t[pos]));
    assert(t.contains(g)) by {
        assert(t[pos] == g);
    }
    assert(t.to_multiset().count(g) > 0);
    assert forall|x: GenomeView| true implies s.to_multiset().insert(g).count(x)
        == t.to_multiset().count(x) by {
        assert(s.to_multiset().count(x) == t.to_multiset().remove(g).count(x));
    }
}

/// The stable descending sort: same length, same contents, sorted.
pub proof fn lemma_sort_desc_props(s: Seq<GenomeView>)
    ensures
        sort_desc(s).len() == s.len(),
        sorted_desc(sort_desc(s)),
        sort_desc(s).to_multiset() =~= s.to_multiset(),
    decreases s.len(),
{
    s.to_multiset_ensures();
    if s.len() == 0 {
        assert(s =~= Seq::<GenomeView>::empty());
        assert(sort_desc(s) == s);
    } else {
        let s1 = s.drop_last();
        let g = s.last();
        lemma_sort_desc_props(s1);
        lemma_insert_desc_sorted(sort_desc(s1), g);
        lemma_insert_pos_bounds(sort_desc(s1), g.fitness);
        let pos = insert_pos(sort_desc(s1), g.fitness);
        lemma_insert_to_multiset(sort_desc(s1), pos, g);
        s1.to_multiset_ensures();
        assert(sort_desc(s) == sort_desc(s1).insert(pos, g));
        assert(sort_desc(s1).insert(pos, g).to_multiset() == sort_desc(s1).to_multiset().insert(g));
        assert(sort_desc(s1).to_multiset() == s1.to_multiset());
        assert(s1.push(g) =~= s);
        assert(s1.push(g).to_multiset() == s1.to_multiset().insert(g));
        assert(sort_desc(s).to_multiset() == s.to_multiset());
    }
}

/// Every genome of the sorted sequence occurs in the original.
pub proof fn lemma_sort_desc_contains(s: Seq<GenomeView>, k: int)
    requires
        0 <= k < sort_desc(s).len(),
    ensures
        s.contains(sort_desc(s)[k]),
{
    lemma_sort_desc_props(s);
    let x = sort_desc(s)[k];
    sort_desc(s).to_multiset_ensures();
    s.to_multiset_ensures();
    assert(sort_desc(s).contains(x));
    assert(sort_desc(s).to_multiset().count(x) > 0);
}

/// The head of the sorted sequence carries the best fitness of the whole
/// sequence (elitism).
pub proof fn lemma_sort_desc_head_is_best(s: Seq<GenomeView>, j: int)
    requires
        0 <= j < s.len(),
    ensures
        s[j].fitness <= sort_desc(s)[0].fitness,
        s.contains(sort_desc(s)[0]),
    decreases s.len(),
{
    lemma_sort_desc_props(s);
    lemma_sort_desc_contains(s, 0);
    let sorted = sort_desc(s);
    sorted.to_multiset_ensures();
    s.to_multiset_ensures();
    assert(s.contains(s[j]));
    assert(s.to_multiset().count(s[j]) > 0);
    assert(sorted.contains(s[j]));
    let i = choose|i: int| 0 <= i < sorted.len() && sorted[i] == s[j];
    if i > 0 {
        assert(sorted[0].fitness >= sorted[i].fitness);
    }
}

/// Elitism: the first two entries of the descending sort are genomes of the
/// original sequence; the first carries its best fitness, and no entry
/// beyond the second beats the second.
pub proof fn lemma_sort_desc_top_two(s: Seq<GenomeView>)
    requires
        s.len() >= 2,
    ensures
        s.contains(sort_desc(s)[0]),
        s.contains(sort_desc(s)[1]),
        forall|j: int| 0 <= j < s.len() ==> (#[trigger] s[j]).fitness <= sort_desc(s)[0].fitness,
        forall|j: int|
            2 <= j < s.len() ==> (#[trigger] sort_desc(s)[j]).fitness <= sort_desc(s)[1].fitness,
{
    lemma_sort_desc_props(s);
    lemma_sort_desc_contains(s, 0);
    lemma_sort_desc_contains(s, 1);
    assert forall|j: int| 0 <= j < s.len() implies (#[trigger] s[j]).fitness <= sort_desc(
        s,
    )[0].fitness by {
        lemma_sort_desc_head_is_best(s, j);
    }
}

/// Stable descending sort of a genome vector, element-wise copied.
pub fn sort_genomes_desc(v: &Vec<Genome>) -> (out: Vec<Genome>)
    ensures
        views(out@) == sort_desc(views(v@)),
{
    let mut out: Vec<Genome> = Vec::new();
    let mut i: usize = 0;
    proof {
        assert(views(v@).take(0) =~= Seq::<GenomeView>::empty());
        assert(views(out@) =~= sort_desc(views(v@).take(0)));
    }
    while i < v.len()
        invariant
            i <= v@.len(),
            views(out@) == sort_desc(views(v@).take(i as int)),
        decreases v@.len() - i,
    {
        let g = clone_genome(&v[i]);
        let f = g.fitness;
        let ghost pre = views(out@);
        let mut k: usize = 0;
        while k < out.len() && out[k].fitness >= f
            invariant
                k <= out@.len(),
                forall|m: int| 0 <= m < k ==> (#[trigger] views(out@)[m]).fitness >= f,
                views(out@) == pre,
            decreases out@.len() - k,
        {
            k += 1;
        }
        proof {
            lemma_insert_pos_unique(pre, f, k as int);
        }
        out.insert(k, g);
        proof {
            assert(views(out@) =~= pre.insert(k as int, g@));
            assert(g@ == views(v@)[i as int]);
            assert(views(out@) == insert_desc(sort_desc(views(v@).take(i as int)), views(v@)[i as int]));
            assert(views(v@).take(i as int + 1).drop_last() =~= views(v@).take(i as int));
            assert(views(v@).take(i as int + 1).last() == views(v@)[i as int]);
            assert(views(out@) == sort_desc(views(v@).take(i as int + 1)));
        }
        i += 1;
    }
    proof {
        assert(views(v@).take(v@.len() as int) =~= views(v@));
    }
    out
}

/// A non-elite slot freshly rebuilt from the two elites: every gene was
/// taken from one parent or the other at its own position and then possibly
/// perturbed within the mutation span; the fitness is reset to zero.
pub open spec fn bred_from(child: GenomeView, e1: GenomeView, e2: GenomeView) -> bool {
    &&& child.rules.len() == e1.rules.len()
    &&& child.radii.len() == e1.radii.len()
    &&& child.fitness == 0
    &&& forall|j: int|
        0 <= j < child.rules.len()
            ==> mutated_gene(
                #[trigger] child.rules[j],
                e1.rules[j],
                RULE_MUTATION_SPAN as int,
                -RULE_LIMIT as int,
                RULE_LIMIT as int,
            ) || mutated_gene(
                child.rules[j],
                e2.rules[j],
                RULE_MUTATION_SPAN as int,
                -RULE_LIMIT as int,
                RULE_LIMIT as int,
            )
    &&& forall|j: int|
        0 <= j < child.radii.len()
            ==> mutated_gene(
                #[trigger] child.radii[j],
                e1.radii[j],
                RADIUS_MUTATION_SPAN as int,
                RADIUS_FLOOR as int,
                RADIUS_CEIL as int,
            ) || mutated_gene(
                child.radii[j],
                e2.radii[j],
                RADIUS_MUTATION_SPAN as int,
                RADIUS_FLOOR as int,
                RADIUS_CEIL as int,
            )
}

/// The ordered collection of candidate genomes under evolution.
#[derive(Debug)]
pub struct Population {
    pub genomes: Vec<Genome>,
    pub species_count: usize,
    pub generation: usize,
}

impl Population {
    /// Every genome is shaped for `species_count` species with all genes in
    /// range.
    pub open spec fn wf(self) -> bool {
        &&& 1 <= self.species_count
        &&& self.species_count * self.species_count <= usize::MAX
        &&& forall|i: int|
            0 <= i < self.genomes@.len()
                ==> genome_wf(#[trigger] views(self.genomes@)[i], self.species_count as int)
    }

    /// A fresh population of `size` genomes sampled uniformly: rules in
    /// `[-1, 1]`, radii in `[20, 100]`, all fitness zero, generation zero.
    pub fn new(species_count: usize, size: usize, rng: &mut rand::rngs::StdRng) -> (r: Self)
        requires
            1 <= species_count,
            species_count * species_count <= usize::MAX,
        ensures
            r.wf(),
            r.species_count == species_count,
            r.generation == 0,
            r.genomes@.len() == size,
            forall|i: int| 0 <= i < size ==> (#[trigger] views(r.genomes@)[i]).fitness == 0,
    {
        let mut genomes: Vec<Genome> = Vec::new();
        let mut n: usize = 0;
        while n < size
            invariant
                n <= size,
                1 <= species_count,
                species_count * species_count <= usize::MAX,
                genomes@.len() == n,
                forall|i: int|
                    0 <= i < n ==> genome_wf(#[trigger] views(genomes@)[i], species_count as int),
                forall|i: int| 0 <= i < n ==> (#[trigger] views(genomes@)[i]).fitness == 0,
            decreases size - n,
        {
            let g = sample_genome(species_count, rng);
            let ghost pre = genomes@;
            genomes.push(g);
            proof {
                assert(genomes@ == pre.push(g));
                assert forall|i: int| 0 <= i < n + 1 implies genome_wf(
                    #[trigger] views(genomes@)[i],
                    species_count as int,
                ) && views(genomes@)[i].fitness == 0 by {
                    if i < n {
                        assert(genomes@[i] == pre[i]);
                        assert(views(pre)[i] == pre[i]@);
                    } else {
                        assert(genomes@[i] == g);
                    }
                }
            }
            n += 1;
        }
        Population { genomes, species_count, generation: 0 }
    }

    /// One selection-and-reproduction step: sort descending by fitness
    /// (stable), keep the top two genomes verbatim at slots 0 and 1, rebuild
    /// every other slot from those two elites by uniform crossover and
    /// mutation with fitness reset to zero, and advance the generation.
    ///
    /// The population's size is invariant, and every gene stays within its
    /// range.
    pub fn select_and_reproduce(&mut self, rng: &mut rand::rngs::StdRng)
        requires
            old(self).wf(),
            old(self).genomes@.len() >= 2,
            old(self).generation < usize::MAX,
        ensures
            final(self).wf(),
            final(self).species_count == old(self).species_count,
            final(self).generation == old(self).generation + 1,
            final(self).genomes@.len() == old(self).genomes@.len(),
            views(final(self).genomes@)[0] == sort_desc(views(old(self).genomes@))[0],
            views(final(self).genomes@)[1] == sort_desc(views(old(self).genomes@))[1],
            forall|i: int|
                2 <= i < final(self).genomes@.len()
                    ==> bred_from(
                        #[trigger] views(final(self).genomes@)[i],
                        sort_desc(views(old(self).genomes@))[0],
                        sort_desc(views(old(self).genomes@))[1],
                    ),
    {
        let ghost orig = views(self.genomes@);
        let ghost sc = self.species_count as int;
        proof {
            lemma_sort_desc_props(orig);
            assert forall|k: int| 0 <= k < orig.len() implies genome_wf(
                sort_desc(orig)[k],
                sc,
            ) by {
                lemma_sort_desc_contains(orig, k);
                let m = choose|m: int| 0 <= m < orig.len() && orig[m] == sort_desc(orig)[k];
                assert(genome_wf(orig[m], sc));
            }
        }
        let sorted = sort_genomes_desc(&self.genomes);
        self.genomes = sorted;
        let len = self.genomes.len();
        let mut i: usize = 2;
        while i < len
            invariant
                2 <= i <= len,
                len == self.genomes@.len(),
                len == orig.len(),
                self.species_count as int == sc,
                views(self.genomes@)[0] == sort_desc(orig)[0],
                views(self.genomes@)[1] == sort_desc(orig)[1],
                genome_wf(sort_desc(orig)[0], sc),
                genome_wf(sort_desc(orig)[1], sc),
                forall|m: int|
                    2 <= m < i ==> bred_from(
                        #[trigger] views(self.genomes@)[m],
                        sort_desc(orig)[0],
                        sort_desc(orig)[1],
                    ),
                forall|m: int|
                    2 <= m < i ==> genome_wf(#[trigger] views(self.genomes@)[m], sc),
                forall|m: int|
                    i <= m < len ==> #[trigger] views(self.genomes@)[m] == sort_desc(orig)[m],
                self.generation == old(self).generation,
                self.species_count == old(self).species_count,
            decreases len - i,
        {
            let ghost e0 = sort_desc(orig)[0];
            let ghost e1 = sort_desc(orig)[1];
            let mut child = crossover_genomes(&self.genomes[0], &self.genomes[1], rng);
            let ghost crossed = child@;
            mutate_genome(&mut child, rng);
            child.fitness = 0;
            proof {
                assert(child@.rules.len() == e0.rules.len());
                assert(child@.radii.len() == e0.radii.len());
                assert forall|j: int| 0 <= j < child@.rules.len() implies mutated_gene(
                    #[trigger] child@.rules[j],
                    e0.rules[j],
                    RULE_MUTATION_SPAN as int,
                    -RULE_LIMIT as int,
                    RULE_LIMIT as int,
                ) || mutated_gene(
                    child@.rules[j],
                    e1.rules[j],
                    RULE_MUTATION_SPAN as int,
                    -RULE_LIMIT as int,
                    RULE_LIMIT as int,
                ) by {
                    assert(crossed.rules[j] == e0.rules[j] || crossed.rules[j] == e1.rules[j]);
                }
                assert forall|j: int| 0 <= j < child@.radii.len() implies mutated_gene(
                    #[trigger] child@.radii[j],
                    e0.radii[j],
                    RADIUS_MUTATION_SPAN as int,
                    RADIUS_FLOOR as int,
                    RADIUS_CEIL as int,
                ) || mutated_gene(
                    child@.radii[j],
                    e1.radii[j],
                    RADIUS_MUTATION_SPAN as int,
                    RADIUS_FLOOR as int,
                    RADIUS_CEIL as int,
                ) by {
                    assert(crossed.radii[j] == e0.radii[j] || crossed.radii[j] == e1.radii[j]);
                }
                assert(bred_from(child@, e0, e1));
                assert(genome_wf(child@, sc));
            }
            let ghost pre = self.genomes@;
            self.genomes.set(i, child);
            proof {
                assert(self.genomes@ == pre.update(i as int, child));
                assert(views(self.genomes@)[i as int] == child@);
                assert forall|m: int| 0 <= m < len && m != i implies #[trigger] views(
                    self.genomes@,
                )[m] == views(pre)[m] by {
                    assert(self.genomes@[m] == pre[m]);
                }
            }
            i += 1;
        }
        self.generation = self.generation + 1;
    }
}

} // verus!
