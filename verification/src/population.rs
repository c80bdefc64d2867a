use vstd::prelude::*;
use vstd::multiset::Multiset;
use crate::individual::Individual;
use crate::rng::rand_below;
use crate::fitness::{gene_byte, match_fitness, match_fitness_upto};

verus! {

/// A fixed-capacity ordered collection of individuals together with the
/// evolution parameters fixed at construction.
#[derive(Debug)]
pub struct Population {
    /// The individuals, in order; callers read and score them directly.
    pub individuals: Vec<Individual>,
    population_size: usize,
    parent_count: usize,
    mutation_chance: u8,
    multi_threaded: bool,
}

/// Every individual of `s` is well formed and has gene length `gl`.
pub open spec fn uniform_genes(s: Seq<Individual>, gl: nat) -> bool {
    forall|i: int|
        0 <= i < s.len() ==> (#[trigger] s[i]).wf() && s[i].spec_gene_length() == gl
}

/// `s` is sorted by descending fitness.
pub open spec fn sorted_desc(s: Seq<Individual>) -> bool {
    forall|i: int, j: int|
        0 <= i < j < s.len() ==> #[trigger] s[i].spec_fitness() >= #[trigger] s[j].spec_fitness()
}

impl Population {
    /// The individuals, as a mathematical sequence.
    pub closed spec fn spec_individuals(&self) -> Seq<Individual> {
        self.individuals@
    }

    /// The fixed capacity.
    pub closed spec fn spec_population_size(&self) -> nat {
        self.population_size as nat
    }

    /// The number of elite survivors retained per generation.
    pub closed spec fn spec_parent_count(&self) -> nat {
        self.parent_count as nat
    }

    /// The per-gene mutation percentage, clamped to at most 100.
    pub closed spec fn spec_mutation_chance(&self) -> u8 {
        self.mutation_chance
    }

    /// Whether child creation is meant to run on several worker threads.
    pub closed spec fn spec_multi_threaded(&self) -> bool {
        self.multi_threaded
    }

    /// The shared gene length of the individuals.
    pub open spec fn spec_gene_length(&self) -> nat {
        self.spec_individuals()[0].spec_gene_length()
    }

    /// The configuration parameters are self-consistent.
    pub open spec fn params_wf(&self) -> bool {
        &&& 1 <= self.spec_parent_count() <= self.spec_population_size()
        &&& self.spec_mutation_chance() <= 100
    }

    /// Well-formedness between generations: consistent parameters, exactly
    /// `population_size` individuals, all well formed with one gene length.
    pub open spec fn wf(&self) -> bool {
        &&& self.params_wf()
        &&& self.spec_individuals().len() == self.spec_population_size()
        &&& uniform_genes(self.spec_individuals(), self.spec_gene_length())
    }

    /// The fixed capacity.
    pub fn get_population_size(&self) -> (r: usize)
        ensures
            r == self.spec_population_size(),
    {
        self.population_size
    }

    /// The number of elite survivors retained per generation.
    pub fn get_parent_count(&self) -> (r: usize)
        ensures
            r == self.spec_parent_count(),
    {
        self.parent_count
    }

    /// The clamped per-gene mutation percentage.
    pub fn get_mutation_chance(&self) -> (r: u8)
        ensures
            r == self.spec_mutation_chance(),
    {
        self.mutation_chance
    }

    /// Whether child creation is meant to run on several worker threads.
    pub fn is_multi_threaded(&self) -> (r: bool)
        ensures
            r == self.spec_multi_threaded(),
    {
        self.multi_threaded
    }
}

/// Why a configuration was rejected at construction.
#[derive(Debug, PartialEq, Eq, Structural, Clone, Copy)]
pub enum ConfigError {
    /// `gene_length` was 0; it must be at least 1.
    GeneLengthZero,
    /// `parent_count` was 0; it must be at least 1.
    ParentCountZero,
    /// `parent_count` exceeded `population_size`.
    ParentCountTooLarge,
}

/// The largest usable mutation percentage.
pub const MAX_MUTATION_CHANCE: u8 = 100;

/// What a mutation chance handed to construction is clamped to.
pub open spec fn clamp_chance(mutation_chance: u8) -> u8 {
    if mutation_chance > MAX_MUTATION_CHANCE {
        MAX_MUTATION_CHANCE
    } else {
        mutation_chance
    }
}

/// Clamp law: every mutation chance of 100 or more is clamped to exactly
/// what 100 itself is clamped to, so construction treats them identically.
pub proof fn lemma_clamp_identifies_overflow(mutation_chance: u8)
    requires
        mutation_chance >= 100,
    ensures
        clamp_chance(mutation_chance) == clamp_chance(100),
{
}

/// Builds a population of `population_size` freshly randomized individuals
/// of `gene_length` genes each, or reports the first configuration fault:
/// a zero gene length, then a zero parent count, then a parent count above
/// the population size. The mutation chance is clamped, never rejected.
pub fn init_population(
    gene_length: usize,
    population_size: usize,
    parent_count: usize,
    mutation_chance: u8,
    multi_threaded: bool,
) -> (r: Result<Population, ConfigError>)
    ensures
        r is Ok <==> (gene_length >= 1 && parent_count >= 1 && parent_count <= population_size),
        gene_length == 0 ==> r == Result::<Population, ConfigError>::Err(
            ConfigError::GeneLengthZero,
        ),
        gene_length >= 1 && parent_count == 0 ==> r == Result::<Population, ConfigError>::Err(
            ConfigError::ParentCountZero,
        ),
        gene_length >= 1 && parent_count >= 1 && parent_count > population_size ==> r
            == Result::<Population, ConfigError>::Err(ConfigError::ParentCountTooLarge),
        r is Ok ==> {
            let p = r->Ok_0;
            &&& p.wf()
            &&& p.spec_population_size() == population_size
            &&& p.spec_parent_count() == parent_count
            &&& p.spec_mutation_chance() == clamp_chance(mutation_chance)
            &&& p.spec_multi_threaded() == multi_threaded
            &&& p.spec_gene_length() == gene_length
            &&& p.spec_individuals().len() == population_size
            &&& forall|i: int|
                0 <= i < p.spec_individuals().len() ==> (#[trigger] p.spec_individuals()[i]).spec_fitness()
                    == 0
        },
{
    let clamped: u8 = if mutation_chance > MAX_MUTATION_CHANCE {
        MAX_MUTATION_CHANCE
    } else {
        mutation_chance
    };
    if gene_length == 0 {
        return Err(ConfigError::GeneLengthZero);
    }
    if parent_count < 1 {
        return Err(ConfigError::ParentCountZero);
    }
    if parent_count > population_size {
        return Err(ConfigError::ParentCountTooLarge);
    }
    let mut individuals: Vec<Individual> = Vec::new();
    let mut i: usize = 0;
    while i < population_size
        invariant
            i <= population_size,
            individuals@.len() == i,
            uniform_genes(individuals@, gene_length as nat),
            forall|k: int|
                0 <= k < individuals@.len() ==> (#[trigger] individuals@[k]).spec_fitness() == 0,
        decreases population_size - i,
    {
        individuals.push(Individual::new(gene_length));
        i += 1;
    }
    let mut p = Population {
        individuals,
        population_size,
        parent_count,
        mutation_chance: clamped,
        multi_threaded,
    };
    p.randomize_population();
    Ok(p)
}

impl Population {
    /// Re-draws the genes of every individual; sizes, gene lengths and
    /// fitness scores are untouched.
    fn randomize_population(&mut self)
        requires
            old(self).spec_individuals().len() >= 1,
            uniform_genes(old(self).spec_individuals(), old(self).spec_gene_length()),
        ensures
            final(self).spec_individuals().len() == old(self).spec_individuals().len(),
            uniform_genes(final(self).spec_individuals(), old(self).spec_gene_length()),
            final(self).spec_gene_length() == old(self).spec_gene_length(),
            final(self).spec_population_size() == old(self).spec_population_size(),
            final(self).spec_parent_count() == old(self).spec_parent_count(),
            final(self).spec_mutation_chance() == old(self).spec_mutation_chance(),
            final(self).spec_multi_threaded() == old(self).spec_multi_threaded(),
            forall|i: int|
                0 <= i < final(self).spec_individuals().len() ==> (#[trigger] final(self).spec_individuals()[i]).spec_fitness() == old(self).spec_individuals()[i].spec_fitness(),
    {
        let ghost gl = self.spec_gene_length();
        let n = self.individuals.len();
        let mut i: usize = 0;
        while i < n
            invariant
                i <= n,
                self.individuals@.len() == n,
                n == old(self).spec_individuals().len(),
                uniform_genes(self.individuals@, gl),
                self.population_size == old(self).population_size,
                self.parent_count == old(self).parent_count,
                self.mutation_chance == old(self).mutation_chance,
                self.multi_threaded == old(self).multi_threaded,
                n >= 1 ==> self.spec_gene_length() == gl,
                forall|k: int|
                    0 <= k < n ==> (#[trigger] self.individuals@[k]).spec_fitness() == old(self).spec_individuals()[k].spec_fitness(),
            decreases n - i,
        {
            let ind = &mut self.individuals[i];
            ind.randomize();
            i += 1;
        }
    }
}

/// The position of an individual of maximal fitness.
fn max_fitness_index(v: &Vec<Individual>) -> (mi: usize)
    requires
        v@.len() >= 1,
    ensures
        mi < v@.len(),
        forall|k: int|
            0 <= k < v@.len() ==> v@[mi as int].spec_fitness() >= (#[trigger] v@[k]).spec_fitness(),
{
    let mut mi: usize = 0;
    let mut i: usize = 1;
    let n = v.len();
    while i < n
        invariant
            1 <= i <= n,
            mi < i,
            n == v@.len(),
            forall|k: int|
                0 <= k < i ==> v@[mi as int].spec_fitness() >= (#[trigger] v@[k]).spec_fitness(),
        decreases n - i,
    {
        if v[i].get_fitness() > v[mi].get_fitness() {
            mi = i;
        }
        i += 1;
    }
    mi
}

/// Sorts into descending fitness order by repeatedly extracting a maximal
/// element; the result is a permutation of the input.
fn sort_desc(v: Vec<Individual>) -> (out: Vec<Individual>)
    ensures
        out@.to_multiset() == v@.to_multiset(),
        out@.len() == v@.len(),
        sorted_desc(out@),
        forall|y: Individual| #[trigger] out@.contains(y) ==> v@.contains(y),
{
    broadcast use vstd::seq_lib::group_to_multiset_ensures;

    let mut src = v;
    let ghost orig = src@;
    let mut out: Vec<Individual> = Vec::new();
    proof {
        assert(out@.to_multiset().add(src@.to_multiset()) =~= orig.to_multiset());
    }
    while src.len() > 0
        invariant
            out@.to_multiset().add(src@.to_multiset()) == orig.to_multiset(),
            sorted_desc(out@),
            forall|a: int, b: int|
                0 <= a < out@.len() && 0 <= b < src@.len() ==> (#[trigger] out@[a]).spec_fitness()
                    >= (#[trigger] src@[b]).spec_fitness(),
            out@.len() + src@.len() == orig.len(),
        decreases src@.len(),
    {
        broadcast use vstd::seq_lib::group_to_multiset_ensures;

        let mi = max_fitness_index(&src);
        let ghost pre_src = src@;
        let ghost pre_out = out@;
        let x = src.remove(mi);
        out.push(x);
        proof {
            pre_src.remove_ensures(mi as int);
            assert(pre_src.contains(x)) by {
                assert(pre_src[mi as int] == x);
            }
            assert(src@.to_multiset() =~= pre_src.to_multiset().remove(x));
            assert(out@.to_multiset() =~= pre_out.to_multiset().insert(x));
            assert(out@.to_multiset().add(src@.to_multiset()) =~= orig.to_multiset()) by {
                assert(pre_src.to_multiset().count(x) > 0);
                assert(forall|y: Individual|
                    #[trigger] out@.to_multiset().add(src@.to_multiset()).count(y)
                        == pre_out.to_multiset().add(pre_src.to_multiset()).count(y));
            }
            assert forall|a: int, b: int|
                0 <= a < b < out@.len() implies (#[trigger] out@[a]).spec_fitness()
                >= (#[trigger] out@[b]).spec_fitness() by {
                if b == out@.len() - 1 {
                    assert(out@[b] == x);
                    assert(out@[a] == pre_out[a]);
                    if pre_src.len() > 0 {
                        assert(pre_out[a].spec_fitness() >= pre_src[mi as int].spec_fitness());
                    }
                } else {
                    assert(out@[a] == pre_out[a]);
                    assert(out@[b] == pre_out[b]);
                }
            }
            assert forall|a: int, b: int|
                0 <= a < out@.len() && 0 <= b < src@.len() implies (
            #[trigger] out@[a]).spec_fitness() >= (#[trigger] src@[b]).spec_fitness() by {
                assert(src@[b] == pre_src[if b < mi { b } else { b + 1 }]);
                if a == out@.len() - 1 {
                    assert(out@[a] == x);
                    assert(x.spec_fitness() >= pre_src[if b < mi { b } else { b + 1 }].spec_fitness());
                } else {
                    assert(out@[a] == pre_out[a]);
                }
            }
        }
    }
    proof {
        assert(src@.to_multiset() =~= Multiset::<Individual>::empty());
        assert(out@.to_multiset() =~= orig.to_multiset());
        assert(out@.to_multiset().len() == orig.to_multiset().len());
        assert forall|y: Individual| #[trigger] out@.contains(y) implies orig.contains(y) by {
            assert(out@.to_multiset().count(y) > 0);
            assert(orig.to_multiset().count(y) > 0);
        }
    }
    out
}

impl Population {
    /// Reorders the individuals into descending fitness order; the new
    /// arrangement is a permutation of the old one and nothing else changes.
    pub fn sort_by_fitness(&mut self)
        ensures
            final(self).spec_individuals().to_multiset() == old(
                self,
            ).spec_individuals().to_multiset(),
            final(self).spec_individuals().len() == old(self).spec_individuals().len(),
            sorted_desc(final(self).spec_individuals()),
            forall|y: Individual| #[trigger] final(self).spec_individuals().contains(y) ==> old(
                self,
            ).spec_individuals().contains(y),
            final(self).spec_population_size() == old(self).spec_population_size(),
            final(self).spec_parent_count() == old(self).spec_parent_count(),
            final(self).spec_mutation_chance() == old(self).spec_mutation_chance(),
            final(self).spec_multi_threaded() == old(self).spec_multi_threaded(),
    {
        let mut taken: Vec<Individual> = Vec::new();
        core::mem::swap(&mut taken, &mut self.individuals);
        let sorted = sort_desc(taken);
        self.individuals = sorted;
    }
}

/// Child gene `g` at position `i` was copied from some parent's gene there.
pub open spec fn copied_gene(g: bool, parents: Seq<Individual>, i: int) -> bool {
    exists|k: int| 0 <= k < parents.len() && g == (#[trigger] parents[k]).spec_genes()[i]
}

/// Child gene `g` at position `i` is the negation of some parent's gene there.
pub open spec fn flipped_gene(g: bool, parents: Seq<Individual>, i: int) -> bool {
    exists|k: int| 0 <= k < parents.len() && g == !(#[trigger] parents[k]).spec_genes()[i]
}

/// Whether `c` could be one child recombined from `parents` under
/// `mutation_chance`: unscored and of the parents' gene length; with a
/// chance of 0 every gene is a copy of some parent's gene at its position,
/// and with a chance of 100 or more every gene is the negation of one.
pub open spec fn child_of(c: Individual, parents: Seq<Individual>, mutation_chance: u8) -> bool {
    &&& c.wf()
    &&& c.spec_fitness() == 0
    &&& parents.len() >= 1
    &&& c.spec_gene_length() == parents[0].spec_gene_length()
    &&& (mutation_chance == 0 ==> forall|i: int|
        0 <= i < c.spec_genes().len() ==> copied_gene(#[trigger] c.spec_genes()[i], parents, i))
    &&& (mutation_chance >= 100 ==> forall|i: int|
        0 <= i < c.spec_genes().len() ==> flipped_gene(#[trigger] c.spec_genes()[i], parents, i))
}

impl Population {
    /// Creates one child by uniform multi-parent crossover: every gene
    /// position independently draws one parent uniformly at random and
    /// copies that parent's value there, then mutation is applied at that
    /// position with probability `mutation_chance` in a hundred. The child
    /// is unscored.
    pub fn create_child(parents: &Vec<Individual>, mutation_chance: u8) -> (child: Individual)
        requires
            parents@.len() >= 1,
            uniform_genes(parents@, parents@[0].spec_gene_length()),
        ensures
            child_of(child, parents@, mutation_chance),
    {
        let gene_length = parents[0].get_gene_length();
        let mut child = Individual::new(gene_length);
        let mut i: usize = 0;
        while i < gene_length
            invariant
                i <= gene_length,
                parents@.len() >= 1,
                parents@[0].spec_gene_length() == gene_length,
                uniform_genes(parents@, gene_length as nat),
                child.wf(),
                child.spec_gene_length() == gene_length,
                child.spec_fitness() == 0,
                mutation_chance == 0 ==> forall|j: int|
                    0 <= j < i ==> copied_gene(#[trigger] child.spec_genes()[j], parents@, j),
                mutation_chance >= 100 ==> forall|j: int|
                    0 <= j < i ==> flipped_gene(#[trigger] child.spec_genes()[j], parents@, j),
            decreases gene_length - i,
        {
            let k = rand_below(parents.len());
            let g = parents[k].gene_at(i);
            child.set_gene(i, g);
            child.mutate_at_index(i, mutation_chance);
            proof {
                assert(mutation_chance == 0 ==> child.spec_genes()[i as int] == parents@[
                    k as int].spec_genes()[i as int]);
                assert(mutation_chance >= 100 ==> child.spec_genes()[i as int] == !parents@[
                    k as int].spec_genes()[i as int]);
            }
            i += 1;
        }
        child
    }
}

/// What one generation step leaves behind, relative to the state before it:
/// for some descending sort `s` of the previous individuals, the first
/// `parent_count` individuals of `s` stand unchanged at the front of the new
/// population, and the rest of the new population consists of children
/// recombined from exactly those elite parents.
pub open spec fn next_gen_post(pre: Population, post: Population) -> bool {
    exists|s: Seq<Individual>|
        {
            &&& #[trigger] sorted_desc(s)
            &&& s.to_multiset() == pre.spec_individuals().to_multiset()
            &&& post.spec_individuals().take(pre.spec_parent_count() as int) == s.take(
                pre.spec_parent_count() as int,
            )
            &&& forall|j: int|
                pre.spec_parent_count() <= j < post.spec_individuals().len() ==> child_of(
                    #[trigger] post.spec_individuals()[j],
                    s.take(pre.spec_parent_count() as int),
                    pre.spec_mutation_chance(),
                )
        }
}

impl Population {
    /// Advances the population by one generation, creating the children one
    /// after another on the calling thread: sorts descending by fitness,
    /// keeps the `parent_count` fittest unconditionally, and refills to
    /// `population_size` with children recombined from those parents.
    /// Thread-pooled child creation is driven by the embedding application
    /// through [`Population::select_parents`], [`Population::worker_batches`],
    /// [`Population::create_child`] and [`Population::absorb_children`].
    pub fn next_generation(&mut self)
        requires
            old(self).wf(),
        ensures
            final(self).wf(),
            final(self).spec_population_size() == old(self).spec_population_size(),
            final(self).spec_parent_count() == old(self).spec_parent_count(),
            final(self).spec_mutation_chance() == old(self).spec_mutation_chance(),
            final(self).spec_multi_threaded() == old(self).spec_multi_threaded(),
            final(self).spec_gene_length() == old(self).spec_gene_length(),
            final(self).spec_individuals().len() == old(self).spec_population_size(),
            next_gen_post(*old(self), *final(self)),
    {
        let ghost gl = self.spec_gene_length();
        self.sort_by_fitness();
        let ghost s = self.spec_individuals();
        proof {
            assert forall|i: int| 0 <= i < s.len() implies (#[trigger] s[i]).wf() && s[
                i].spec_gene_length() == gl by {
                assert(s.contains(s[i]));
                assert(old(self).spec_individuals().contains(s[i]));
                let j = choose|j: int|
                    0 <= j < old(self).spec_individuals().len() && old(self).spec_individuals()[j]
                        == s[i];
                assert(old(self).spec_individuals()[j].wf());
            }
        }
        self.individuals.truncate(self.parent_count);
        proof {
            assert(self.spec_individuals() =~= s.take(self.spec_parent_count() as int));
            assert forall|i: int| 0 <= i < self.spec_individuals().len() implies (
            #[trigger] self.spec_individuals()[i]).wf() && self.spec_individuals()[
                i].spec_gene_length() == gl by {
                assert(self.spec_individuals()[i] == s[i]);
            }
            assert(self.spec_individuals()[0].spec_gene_length() == gl);
        }
        let needed = self.population_size - self.individuals.len();
        let mut children: Vec<Individual> = Vec::new();
        let mut c: usize = 0;
        while c < needed
            invariant
                c <= needed,
                children@.len() == c,
                self.spec_individuals().len() >= 1,
                uniform_genes(self.spec_individuals(), gl),
                self.spec_individuals()[0].spec_gene_length() == gl,
                forall|j: int|
                    0 <= j < children@.len() ==> child_of(
                        #[trigger] children@[j],
                        self.spec_individuals(),
                        self.spec_mutation_chance(),
                    ),
            decreases needed - c,
        {
            let child = Self::create_child(&self.individuals, self.mutation_chance);
            children.push(child);
            c += 1;
        }
        let ghost parents = self.spec_individuals();
        self.individuals.append(&mut children);
        proof {
            assert(self.spec_individuals().take(self.spec_parent_count() as int) =~= parents);
            assert(forall|j: int|
                0 <= j < self.spec_individuals().len() ==> (#[trigger] self.spec_individuals()[
                j]).wf() && self.spec_individuals()[j].spec_gene_length() == gl);
            assert(sorted_desc(s));
        }
    }
}

/// Elitism: in a descending sort, each of the first `parent_count` entries
/// has fitness at least that of every entry beyond the cut, so the retained
/// elite prefix consists of the fittest individuals of the old population.
pub proof fn lemma_elite_dominates(s: Seq<Individual>, parent_count: int)
    requires
        sorted_desc(s),
        0 <= parent_count <= s.len(),
    ensures
        forall|i: int, j: int|
            0 <= i < parent_count && parent_count <= j < s.len() ==> (#[trigger] s[
            i]).spec_fitness() >= (#[trigger] s[j]).spec_fitness(),
{
}

/// The sum of a sequence of batch sizes.
pub open spec fn batch_sum(s: Seq<usize>) -> int
    decreases s.len(),
{
    if s.len() == 0 {
        0
    } else {
        batch_sum(s.drop_last()) + s.last()
    }
}

impl Population {
    /// Sorts descending by fitness and keeps only the `parent_count`
    /// fittest: the elite set. The embedding application calls this, then
    /// creates the children on its workers with
    /// [`Population::worker_batches`] and [`Population::create_child`], and
    /// hands them back to [`Population::absorb_children`].
    pub fn select_parents(&mut self)
        requires
            old(self).wf(),
        ensures
            final(self).spec_population_size() == old(self).spec_population_size(),
            final(self).spec_parent_count() == old(self).spec_parent_count(),
            final(self).spec_mutation_chance() == old(self).spec_mutation_chance(),
            final(self).spec_multi_threaded() == old(self).spec_multi_threaded(),
            final(self).spec_gene_length() == old(self).spec_gene_length(),
            final(self).spec_individuals().len() == old(self).spec_parent_count(),
            sorted_desc(final(self).spec_individuals()),
            uniform_genes(final(self).spec_individuals(), old(self).spec_gene_length()),
            exists|s: Seq<Individual>|
                {
                    &&& #[trigger] sorted_desc(s)
                    &&& s.to_multiset() == old(self).spec_individuals().to_multiset()
                    &&& final(self).spec_individuals() == s.take(
                        old(self).spec_parent_count() as int,
                    )
                },
    {
        let ghost gl = self.spec_gene_length();
        self.sort_by_fitness();
        let ghost s = self.spec_individuals();
        proof {
            assert forall|i: int| 0 <= i < s.len() implies (#[trigger] s[i]).wf() && s[
                i].spec_gene_length() == gl by {
                assert(s.contains(s[i]));
                assert(old(self).spec_individuals().contains(s[i]));
                let j = choose|j: int|
                    0 <= j < old(self).spec_individuals().len() && old(self).spec_individuals()[j]
                        == s[i];
                assert(old(self).spec_individuals()[j].wf());
            }
        }
        self.individuals.truncate(self.parent_count);
        proof {
            assert(self.spec_individuals() =~= s.take(self.spec_parent_count() as int));
            assert forall|i: int| 0 <= i < self.spec_individuals().len() implies (
            #[trigger] self.spec_individuals()[i]).wf() && self.spec_individuals()[
                i].spec_gene_length() == gl by {
                assert(self.spec_individuals()[i] == s[i]);
            }
            assert(self.spec_individuals()[0].spec_gene_length() == gl);
        }
    }

    /// Appends externally created children to the retained elite set,
    /// restoring the population to its fixed size. Exactly the missing
    /// number of children must arrive, all of the population's gene length.
    pub fn absorb_children(&mut self, children: Vec<Individual>)
        requires
            old(self).params_wf(),
            old(self).spec_individuals().len() == old(self).spec_parent_count(),
            uniform_genes(old(self).spec_individuals(), old(self).spec_gene_length()),
            old(self).spec_individuals().len() + children@.len() == old(
                self,
            ).spec_population_size(),
            uniform_genes(children@, old(self).spec_gene_length()),
        ensures
            final(self).wf(),
            final(self).spec_individuals() == old(self).spec_individuals() + children@,
            final(self).spec_population_size() == old(self).spec_population_size(),
            final(self).spec_parent_count() == old(self).spec_parent_count(),
            final(self).spec_mutation_chance() == old(self).spec_mutation_chance(),
            final(self).spec_multi_threaded() == old(self).spec_multi_threaded(),
            final(self).spec_gene_length() == old(self).spec_gene_length(),
    {
        let ghost elite = self.spec_individuals();
        let ghost gl = self.spec_gene_length();
        let mut incoming = children;
        let ghost kids = incoming@;
        self.individuals.append(&mut incoming);
        proof {
            assert(self.spec_individuals() == elite + kids);
            assert forall|i: int| 0 <= i < self.spec_individuals().len() implies (
            #[trigger] self.spec_individuals()[i]).wf() && self.spec_individuals()[
                i].spec_gene_length() == gl by {
                if i < elite.len() {
                    assert(self.spec_individuals()[i] == elite[i]);
                } else {
                    assert(self.spec_individuals()[i] == kids[i - elite.len()]);
                }
            }
            assert(self.spec_individuals()[0].spec_gene_length() == gl);
        }
    }

    /// Splits `children_needed` into one batch per worker: every worker
    /// gets `children_needed / worker_count` children, and the last worker
    /// additionally takes the remainder, so the batches sum to exactly
    /// `children_needed` however the division comes out.
    pub fn worker_batches(children_needed: usize, worker_count: usize) -> (batches: Vec<usize>)
        requires
            worker_count >= 1,
        ensures
            batches@.len() == worker_count,
            forall|k: int|
                0 <= k < worker_count - 1 ==> #[trigger] batches@[k] == children_needed as int
                    / worker_count as int,
            batches@[worker_count - 1] == children_needed as int / worker_count as int
                + children_needed as int % worker_count as int,
            batch_sum(batches@) == children_needed,
    {
        let per = children_needed / worker_count;
        let rem = children_needed % worker_count;
        proof {
            vstd::arithmetic::div_mod::lemma_fundamental_div_mod(
                children_needed as int,
                worker_count as int,
            );
            assert(per + rem <= children_needed) by (nonlinear_arith)
                requires
                    per == children_needed as int / worker_count as int,
                    rem == children_needed as int % worker_count as int,
                    worker_count >= 1,
                    children_needed as int == worker_count as int * (children_needed as int
                        / worker_count as int) + children_needed as int % worker_count as int,
            ;
        }
        let mut batches: Vec<usize> = Vec::new();
        let mut i: usize = 0;
        while i < worker_count - 1
            invariant
                i <= worker_count - 1,
                batches@.len() == i,
                per == children_needed as int / worker_count as int,
                rem == children_needed as int % worker_count as int,
                forall|k: int| 0 <= k < i ==> #[trigger] batches@[k] == per,
                batch_sum(batches@) == i * per,
            decreases worker_count - 1 - i,
        {
            let ghost pre = batches@;
            batches.push(per);
            proof {
                assert(batches@.drop_last() =~= pre);
                assert(batches@.last() == per);
                assert((i + 1) * per == i * per + per) by (nonlinear_arith);
            }
            i += 1;
        }
        let ghost pre = batches@;
        batches.push(per + rem);
        proof {
            assert(batches@.drop_last() =~= pre);
            assert(batch_sum(batches@) == (worker_count - 1) * per + per + rem);
            vstd::arithmetic::div_mod::lemma_fundamental_div_mod(
                children_needed as int,
                worker_count as int,
            );
            assert((worker_count - 1) * per + per + rem == children_needed) by (nonlinear_arith)
                requires
                    per == children_needed as int / worker_count as int,
                    rem == children_needed as int % worker_count as int,
                    worker_count >= 1,
                    children_needed as int == worker_count as int * (children_needed as int
                        / worker_count as int) + children_needed as int % worker_count as int,
            ;
        }
        batches
    }

    /// A copy of a fittest individual: its fitness is maximal over the
    /// population, and its genes and score are those of some individual.
    pub fn read_fittest(&self) -> (r: Individual)
        requires
            self.spec_individuals().len() >= 1,
        ensures
            exists|i: int|
                0 <= i < self.spec_individuals().len() && {
                    let w = #[trigger] self.spec_individuals()[i];
                    r.spec_genes() == w.spec_genes() && r.spec_fitness() == w.spec_fitness()
                        && r.spec_gene_length() == w.spec_gene_length()
                },
            forall|k: int|
                0 <= k < self.spec_individuals().len() ==> r.spec_fitness() >= (
                #[trigger] self.spec_individuals()[k]).spec_fitness(),
    {
        let mi = max_fitness_index(&self.individuals);
        let r = self.individuals[mi].clone();
        proof {
            assert(0 <= mi < self.spec_individuals().len() && {
                let w = self.spec_individuals()[mi as int];
                r.spec_genes() == w.spec_genes() && r.spec_fitness() == w.spec_fitness()
                    && r.spec_gene_length() == w.spec_gene_length()
            });
        }
        r
    }
}

/// Scores every individual of the population against a target byte string:
/// the genes are read as bytes, and the fitness becomes the sum, over the
/// target's bytes, of 255 minus the distance from the matching gene byte.
/// Genes and gene lengths are untouched.
pub fn string_match_fitness(population: Population, target: &Vec<u8>) -> (r: Population)
    requires
        forall|i: int|
            0 <= i < population.spec_individuals().len() ==> (
            #[trigger] population.spec_individuals()[i]).spec_genes().len() >= 8 * target@.len(),
        255 * target@.len() <= u64::MAX,
    ensures
        r.spec_individuals().len() == population.spec_individuals().len(),
        forall|i: int|
            0 <= i < r.spec_individuals().len() ==> {
                let pre = population.spec_individuals()[i];
                let post = #[trigger] r.spec_individuals()[i];
                &&& post.spec_genes() == pre.spec_genes()
                &&& post.spec_gene_length() == pre.spec_gene_length()
                &&& post.spec_fitness() == match_fitness(pre.spec_genes(), target@)
            },
        r.spec_population_size() == population.spec_population_size(),
        r.spec_parent_count() == population.spec_parent_count(),
        r.spec_mutation_chance() == population.spec_mutation_chance(),
        r.spec_multi_threaded() == population.spec_multi_threaded(),
{
    let mut population = population;
    let ghost orig = population;
    let n = population.individuals.len();
    let mut i: usize = 0;
    while i < n
        invariant
            i <= n,
            n == population.spec_individuals().len(),
            forall|k: int|
                0 <= k < n ==> (#[trigger] population.spec_individuals()[k]).spec_genes().len()
                    >= 8 * target@.len(),
            255 * target@.len() <= u64::MAX,
            population.spec_population_size() == orig.spec_population_size(),
            population.spec_parent_count() == orig.spec_parent_count(),
            population.spec_mutation_chance() == orig.spec_mutation_chance(),
            population.spec_multi_threaded() == orig.spec_multi_threaded(),
            forall|k: int|
                i <= k < n ==> #[trigger] population.spec_individuals()[k]
                    == orig.spec_individuals()[k],
            forall|k: int|
                0 <= k < i ==> {
                    let pre = orig.spec_individuals()[k];
                    let post = #[trigger] population.spec_individuals()[k];
                    &&& post.spec_genes() == pre.spec_genes()
                    &&& post.spec_gene_length() == pre.spec_gene_length()
                    &&& post.spec_fitness() == match_fitness(pre.spec_genes(), target@)
                },
        decreases n - i,
    {
        let score = score_one(&population.individuals[i], target);
        population.individuals[i].set_fitness(score);
        i += 1;
    }
    population
}

/// The match score of one individual against a target byte string.
fn score_one(ind: &Individual, target: &Vec<u8>) -> (score: u64)
    requires
        ind.spec_genes().len() >= 8 * target@.len(),
        255 * target@.len() <= u64::MAX,
    ensures
        score == match_fitness(ind.spec_genes(), target@),
{
    let bytes = ind.get_genes_as_decimal_bytes();
    let mut score: u64 = 0;
    let mut j: usize = 0;
    let m = target.len();
    while j < m
        invariant
            j <= m,
            m == target@.len(),
            bytes@.len() == ind.spec_genes().len() / 8,
            bytes@.len() >= m,
            forall|q: int|
                0 <= q < bytes@.len() ==> #[trigger] bytes@[q] as int == gene_byte(
                    ind.spec_genes(),
                    q,
                ),
            255 * target@.len() <= u64::MAX,
            score == match_fitness_upto(ind.spec_genes(), target@, j as int),
            score <= 255 * j,
        decreases m - j,
    {
        let gb = bytes[j];
        let tb = target[j];
        let diff: u8 = if gb >= tb {
            gb - tb
        } else {
            tb - gb
        };
        let term: u8 = 255 - diff;
        proof {
            assert(score + term <= 255 * (j + 1));
            assert(255 * (j + 1) <= 255 * target@.len()) by (nonlinear_arith)
                requires
                    j + 1 <= target@.len(),
            ;
        }
        score = score + term as u64;
        j += 1;
    }
    score
}


} // verus!
