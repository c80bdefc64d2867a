use vstd::prelude::*;
use crate::individual::Individual;

verus! {

/// Two to the `n`th power.
pub open spec fn two_to(n: nat) -> nat
    decreases n,
{
    if n == 0 {
        1
    } else {
        2 * two_to((n - 1) as nat)
    }
}

/// The number a bit sequence denotes, most significant bit first:
/// `true` is the digit 1 and `false` the digit 0.
pub open spec fn bits_value(s: Seq<bool>) -> nat
    decreases s.len(),
{
    if s.len() == 0 {
        0
    } else {
        2 * bits_value(s.drop_last()) + (if s.last() {
            1nat
        } else {
            0nat
        })
    }
}

/// The `j`th byte a gene vector denotes: its bits 8j up to 8j + 8 read as
/// one number, most significant bit first.
pub open spec fn gene_byte(genes: Seq<bool>, j: int) -> int {
    bits_value(genes.subrange(8 * j, 8 * j + 8)) as int
}

/// The distance between two numbers.
pub open spec fn abs_diff(a: int, b: int) -> int {
    if a >= b {
        a - b
    } else {
        b - a
    }
}

/// The match score of one gene vector against the first `n` bytes of a
/// target: for each of those bytes, 255 minus its distance from the byte
/// the genes denote at the same index.
pub open spec fn match_fitness_upto(genes: Seq<bool>, target: Seq<u8>, n: int) -> int
    decreases n,
{
    if n <= 0 {
        0
    } else {
        match_fitness_upto(genes, target, n - 1) + 255 - abs_diff(
            gene_byte(genes, n - 1),
            target[n - 1] as int,
        )
    }
}

/// The match score of one gene vector against a whole target byte string.
pub open spec fn match_fitness(genes: Seq<bool>, target: Seq<u8>) -> int {
    match_fitness_upto(genes, target, target.len() as int)
}

impl Individual {
    /// Reads the genes as bytes, eight genes per byte with the most
    /// significant bit first; trailing genes beyond the last full eight
    /// are not represented.
    pub fn get_genes_as_decimal_bytes(&self) -> (r: Vec<u8>)
        ensures
            r@.len() == self.spec_genes().len() / 8,
            forall|j: int|
                0 <= j < r@.len() ==> #[trigger] r@[j] as int == gene_byte(self.spec_genes(), j),
    {
        let genes = self.get_genes();
        let glen = genes.len();
        let count = glen / 8;
        let mut r: Vec<u8> = Vec::new();
        let mut j: usize = 0;
        while j < count
            invariant
                j <= count,
                glen == genes@.len(),
                count == genes@.len() / 8,
                genes@ == self.spec_genes(),
                r@.len() == j,
                forall|q: int|
                    0 <= q < j ==> #[trigger] r@[q] as int == gene_byte(self.spec_genes(), q),
            decreases count - j,
        {
            let mut val: u8 = 0;
            let mut b: usize = 0;
            proof {
                assert(genes@.subrange(8 * j as int, 8 * j as int) =~= Seq::<bool>::empty());
            }
            while b < 8
                invariant
                    b <= 8,
                    j < count,
                    glen == genes@.len(),
                    count == genes@.len() / 8,
                    val as nat == bits_value(genes@.subrange(8 * j as int, 8 * j + b)),
                    val < two_to(b as nat),
                decreases 8 - b,
            {
                proof {
                    assert(two_to(7nat) == 128) by {
                        assert(two_to(0nat) == 1);
                        assert(two_to(1nat) == 2);
                        assert(two_to(2nat) == 4);
                        assert(two_to(3nat) == 8);
                        assert(two_to(4nat) == 16);
                        assert(two_to(5nat) == 32);
                        assert(two_to(6nat) == 64);
                    }
                    assert(two_to(b as nat) <= two_to(7nat)) by {
                        assert(forall|n: nat| #![trigger two_to(n)] two_to(n) >= 1) by {
                            assert forall|n: nat| #[trigger] two_to(n) >= 1 by {
                                lemma_two_to_pos(n);
                            }
                        }
                        lemma_two_to_monotone(b as nat, 7nat);
                    }
                }
                proof {
                    assert(8 * (j as int) + (b as int) < genes@.len()) by {
                        assert(8 * (j as int) <= 8 * (count as int - 1));
                        vstd::arithmetic::div_mod::lemma_fundamental_div_mod(
                            genes@.len() as int,
                            8,
                        );
                    };
                }
                let g = genes[8 * j + b];
                let digit: u8 = if g {
                    1
                } else {
                    0
                };
                let ghost pre = genes@.subrange(8 * j as int, 8 * j + b);
                val = val * 2 + digit;
                proof {
                    let cur = genes@.subrange(8 * j as int, 8 * j + b + 1);
                    assert(cur.drop_last() =~= pre);
                    assert(cur.last() == genes@[8 * j + b]);
                }
                b += 1;
            }
            r.push(val);
            proof {
                assert(genes@.subrange(8 * j as int, 8 * j + 8) == self.spec_genes().subrange(
                    8 * j as int,
                    8 * j + 8,
                ));
            }
            j += 1;
        }
        r
    }
}

/// `two_to` is always positive.
pub proof fn lemma_two_to_pos(n: nat)
    ensures
        two_to(n) >= 1,
    decreases n,
{
    if n > 0 {
        lemma_two_to_pos((n - 1) as nat);
    }
}

/// `two_to` never decreases as the exponent grows.
pub proof fn lemma_two_to_monotone(a: nat, b: nat)
    requires
        a <= b,
    ensures
        two_to(a) <= two_to(b),
    decreases b,
{
    if a < b {
        lemma_two_to_monotone(a, (b - 1) as nat);
        lemma_two_to_pos((b - 1) as nat);
    }
}

} // verus!
