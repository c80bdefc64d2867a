use genetic_algorithm::init_population;
use genetic_algorithm::population::string_match_fitness;
use genetic_algorithm::Individual;

fn byte_to_genes(byte: u8) -> Vec<bool> {
    let mut genes: Vec<bool> = Vec::new();
    for bit in 0..8 {
        genes.push(byte & (0x80 >> bit) != 0);
    }
    genes
}

#[test]
fn bytes_read_most_significant_bit_first() {
    let one_two_nine = Individual::from_genes(vec![
        true, false, false, false, false, false, false, true,
    ]);
    assert_eq!(one_two_nine.get_genes_as_decimal_bytes(), vec![129]);

    let zero = Individual::from_genes(vec![false; 8]);
    assert_eq!(zero.get_genes_as_decimal_bytes(), vec![0]);

    let all = Individual::from_genes(vec![true; 8]);
    assert_eq!(all.get_genes_as_decimal_bytes(), vec![255]);
}

#[test]
fn trailing_partial_byte_is_dropped() {
    let mut genes = byte_to_genes(104);
    genes.push(true);
    genes.push(true);
    let ind = Individual::from_genes(genes);
    assert_eq!(ind.get_genes_as_decimal_bytes(), vec![104]);
}

#[test]
fn two_byte_encoding() {
    let mut genes = byte_to_genes(104);
    genes.extend(byte_to_genes(105));
    let ind = Individual::from_genes(genes);
    assert_eq!(ind.get_genes_as_decimal_bytes(), vec![104, 105]);
}

#[test]
fn perfect_match_scores_full_marks() {
    let target: Vec<u8> = vec![104, 105];
    let mut pop = init_population(16, 3, 1, 0, false).unwrap();
    let mut genes = byte_to_genes(104);
    genes.extend(byte_to_genes(105));
    pop.individuals[0] = Individual::from_genes(genes);
    let pop = string_match_fitness(pop, &target);
    assert_eq!(pop.individuals[0].get_fitness(), 510);
}

#[test]
fn mismatch_scores_by_distance() {
    let target: Vec<u8> = vec![100];
    let mut pop = init_population(8, 2, 1, 0, false).unwrap();
    pop.individuals[0] = Individual::from_genes(byte_to_genes(98));
    pop.individuals[1] = Individual::from_genes(byte_to_genes(107));
    let pop = string_match_fitness(pop, &target);
    assert_eq!(pop.individuals[0].get_fitness(), 253);
    assert_eq!(pop.individuals[1].get_fitness(), 248);
}

#[test]
fn genes_display_as_bit_string() {
    let ind = Individual::from_genes(vec![true, false, true, true, false]);
    assert_eq!(ind.genes_string(), "10110");
    let empty = Individual::from_genes(Vec::new());
    assert_eq!(empty.genes_string(), "");
}

#[test]
fn get_genes_returns_an_independent_copy() {
    let ind = Individual::from_genes(vec![true, false]);
    let mut copy = ind.get_genes();
    copy[0] = false;
    assert_eq!(ind.get_genes(), vec![true, false]);
}
