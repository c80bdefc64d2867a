use vstd::prelude::*;
use vstd::string::StringExecFns;
use crate::rng::rand_below;

verus! {

/// One candidate solution: a fixed-length boolean gene vector together
/// with an externally assigned fitness score.
///
/// The gene length is fixed at creation and `genes` always holds exactly
/// that many entries (`wf`). Fitness defaults to 0 and is only ever set
/// through [`Individual::set_fitness`]; the engine never computes it.
#[derive(Debug)]
pub struct Individual {
    gene_length: usize,
    genes: Vec<bool>,
    fitness: u64,
}

impl Individual {
    /// The gene vector, as a mathematical sequence.
    pub closed spec fn spec_genes(&self) -> Seq<bool> {
        self.genes@
    }

    /// The fixed gene length recorded at creation.
    pub closed spec fn spec_gene_length(&self) -> nat {
        self.gene_length as nat
    }

    /// The current fitness score.
    pub closed spec fn spec_fitness(&self) -> u64 {
        self.fitness
    }

    /// Well-formedness: the gene vector has exactly the recorded length.
    pub open spec fn wf(&self) -> bool {
        self.spec_genes().len() == self.spec_gene_length()
    }

    /// Creates an unscored individual whose genes are all `false`.
    pub fn new(gene_length: usize) -> (r: Individual)
        ensures
            r.wf(),
            r.spec_gene_length() == gene_length,
            r.spec_genes() == Seq::new(gene_length as nat, |i: int| false),
            r.spec_fitness() == 0,
    {
        let genes: Vec<bool> = vec![false; gene_length];
        proof {
            assert(genes@ =~= Seq::new(gene_length as nat, |i: int| false));
        }
        Individual { gene_length, genes, fitness: 0 }
    }

    /// Creates an unscored individual holding exactly the given genes.
    pub fn from_genes(genes: Vec<bool>) -> (r: Individual)
        ensures
            r.wf(),
            r.spec_gene_length() == genes@.len(),
            r.spec_genes() == genes@,
            r.spec_fitness() == 0,
    {
        let gene_length = genes.len();
        Individual { gene_length, genes, fitness: 0 }
    }

    /// Re-draws every gene independently, `true` or `false` with equal
    /// probability. Length and fitness are untouched; nothing is promised
    /// of the drawn values themselves.
    pub(crate) fn randomize(&mut self)
        requires
            old(self).wf(),
        ensures
            final(self).wf(),
            final(self).spec_gene_length() == old(self).spec_gene_length(),
            final(self).spec_fitness() == old(self).spec_fitness(),
    {
        let n = self.gene_length;
        let mut genes: Vec<bool> = vec![true; n];
        let mut i: usize = 0;
        while i < n
            invariant
                i <= n,
                genes@.len() == n,
            decreases n - i,
        {
            let draw = rand_below(2);
            if draw == 0 {
                genes[i] = false;
            }
            i += 1;
        }
        self.genes = genes;
    }

    /// Returns a copy of the gene vector; no aliasing with internal state.
    pub fn get_genes(&self) -> (r: Vec<bool>)
        ensures
            r@ == self.spec_genes(),
    {
        let mut r: Vec<bool> = Vec::new();
        let mut i: usize = 0;
        let n = self.genes.len();
        while i < n
            invariant
                i <= n,
                n == self.spec_genes().len(),
                r@ == self.spec_genes().take(i as int),
            decreases n - i,
        {
            r.push(self.genes[i]);
            proof {
                assert(r@ =~= self.spec_genes().take(i + 1));
            }
            i += 1;
        }
        proof {
            assert(self.spec_genes().take(n as int) =~= self.spec_genes());
        }
        r
    }

    /// Overwrites the fitness score; genes are untouched.
    pub fn set_fitness(&mut self, fitness: u64)
        ensures
            final(self).spec_fitness() == fitness,
            final(self).spec_genes() == old(self).spec_genes(),
            final(self).spec_gene_length() == old(self).spec_gene_length(),
    {
        self.fitness = fitness;
    }

    /// The current fitness score.
    pub fn get_fitness(&self) -> (r: u64)
        ensures
            r == self.spec_fitness(),
    {
        self.fitness
    }

    /// The fixed gene length.
    pub fn get_gene_length(&self) -> (r: usize)
        ensures
            r == self.spec_gene_length(),
    {
        self.gene_length
    }

    /// The gene at one position.
    pub fn gene_at(&self, index: usize) -> (r: bool)
        requires
            index < self.spec_genes().len(),
        ensures
            r == self.spec_genes()[index as int],
    {
        self.genes[index]
    }

    /// Overwrites the gene at one position.
    pub(crate) fn set_gene(&mut self, index: usize, value: bool)
        requires
            index < old(self).spec_genes().len(),
        ensures
            final(self).spec_genes() == old(self).spec_genes().update(index as int, value),
            final(self).spec_gene_length() == old(self).spec_gene_length(),
            final(self).spec_fitness() == old(self).spec_fitness(),
    {
        self.genes[index] = value;
    }

    /// Flips the gene at `index` with probability `mutation_chance` in a
    /// hundred, independently of every other call. A chance of 0 never
    /// flips; a chance of 100 or more always flips; no other position or
    /// field changes either way.
    pub(crate) fn mutate_at_index(&mut self, index: usize, mutation_chance: u8)
        requires
            index < old(self).spec_genes().len(),
        ensures
            final(self).spec_genes().len() == old(self).spec_genes().len(),
            final(self).spec_gene_length() == old(self).spec_gene_length(),
            final(self).spec_fitness() == old(self).spec_fitness(),
            forall|j: int|
                0 <= j < old(self).spec_genes().len() && j != index ==> final(self).spec_genes()[j]
                    == old(self).spec_genes()[j],
            mutation_chance == 0 ==> final(self).spec_genes()[index as int] == old(self).spec_genes()[index as int],
            mutation_chance >= 100 ==> final(self).spec_genes()[index as int] == !old(self).spec_genes()[index as int],
    {
        let draw = rand_below(100);
        if draw < mutation_chance as usize {
            let flipped = !self.genes[index];
            self.genes[index] = flipped;
        }
    }

    /// The diagnostic form of the genes: one character per gene,
    /// `'1'` for `true` and `'0'` for `false`.
    pub open spec fn spec_gene_chars(&self) -> Seq<char> {
        Seq::new(self.spec_genes().len(), |i: int| gene_char(self.spec_genes()[i]))
    }

    /// Renders the genes as a bit-string, one `'1'` or `'0'` per gene,
    /// for diagnostics only.
    pub fn genes_string(&self) -> (r: String)
        ensures
            r@ == self.spec_gene_chars(),
    {
        let mut r = String::new();
        let mut i: usize = 0;
        let n = self.genes.len();
        proof {
            reveal_strlit("1");
            reveal_strlit("0");
        }
        while i < n
            invariant
                i <= n,
                n == self.spec_genes().len(),
                "1"@ == seq!['1'],
                "0"@ == seq!['0'],
                r@ == self.spec_gene_chars().take(i as int),
            decreases n - i,
        {
            if self.genes[i] {
                r.append("1");
            } else {
                r.append("0");
            }
            proof {
                assert(r@ =~= self.spec_gene_chars().take(i + 1));
            }
            i += 1;
        }
        proof {
            assert(self.spec_gene_chars().take(n as int) =~= self.spec_gene_chars());
        }
        r
    }
}

/// The character a single gene displays as.
pub open spec fn gene_char(b: bool) -> char {
    if b {
        '1'
    } else {
        '0'
    }
}

impl Clone for Individual {
    /// A clone carries the same genes, gene length and fitness.
    fn clone(&self) -> (r: Self)
        ensures
            r.spec_genes() == self.spec_genes(),
            r.spec_gene_length() == self.spec_gene_length(),
            r.spec_fitness() == self.spec_fitness(),
    {
        let mut genes: Vec<bool> = Vec::new();
        let mut i: usize = 0;
        let n = self.genes.len();
        while i < n
            invariant
                i <= n,
                n == self.genes@.len(),
                genes@ == self.genes@.take(i as int),
            decreases n - i,
        {
            genes.push(self.genes[i]);
            proof {
                assert(genes@ =~= self.genes@.take(i + 1));
            }
            i += 1;
        }
        proof {
            assert(genes@ =~= self.genes@);
        }
        Individual { gene_length: self.gene_length, genes, fitness: self.fitness }
    }
}

/// Equality consults the fitness score alone: two genetically distinct
/// individuals with equal scores compare equal.
impl PartialEq for Individual {
    fn eq(&self, other: &Self) -> (r: bool) {
        self.fitness == other.fitness
    }
}

impl vstd::std_specs::cmp::PartialEqSpecImpl for Individual {
    open spec fn obeys_eq_spec() -> bool {
        true
    }

    open spec fn eq_spec(&self, other: &Self) -> bool {
        self.spec_fitness() == other.spec_fitness()
    }
}

/// Ordering likewise consults the fitness score alone.
impl PartialOrd for Individual {
    fn partial_cmp(&self, other: &Self) -> (r: Option<core::cmp::Ordering>) {
        if self.fitness < other.fitness {
            Some(core::cmp::Ordering::Less)
        } else if self.fitness == other.fitness {
            Some(core::cmp::Ordering::Equal)
        } else {
            Some(core::cmp::Ordering::Greater)
        }
    }
}

impl vstd::std_specs::cmp::PartialOrdSpecImpl for Individual {
    open spec fn obeys_partial_cmp_spec() -> bool {
        true
    }

    open spec fn partial_cmp_spec(&self, other: &Self) -> Option<core::cmp::Ordering> {
        if self.spec_fitness() < other.spec_fitness() {
            Some(core::cmp::Ordering::Less)
        } else if self.spec_fitness() == other.spec_fitness() {
            Some(core::cmp::Ordering::Equal)
        } else {
            Some(core::cmp::Ordering::Greater)
        }
    }
}

} // verus!
