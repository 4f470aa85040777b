use smart_rockets::dna::DNA;

fn dna_with(genes: Vec<i32>) -> DNA {
    DNA { genes, curr_gene: 0, fitness: 0 }
}

#[test]
fn next_angle_walks_the_genome() {
    let mut d = dna_with(vec![1, 2, 3]);
    assert_eq!(d.next_angle(), 1);
    assert_eq!(d.next_angle(), 2);
    assert_eq!(d.next_angle(), 3);
    assert_eq!(d.curr_gene, 3);
}

#[test]
fn next_angle_saturates_on_last_gene() {
    let mut d = dna_with(vec![4, 5, 6]);
    for _ in 0..3 {
        d.next_angle();
    }
    // Reads past the end keep returning the last gene without advancing.
    for _ in 0..10 {
        assert_eq!(d.next_angle(), 6);
        assert_eq!(d.curr_gene, 3);
    }
}

#[test]
fn crossover_at_every_split_point() {
    let a = dna_with(vec![10, 11, 12, 13]);
    let b = dna_with(vec![20, 21, 22, 23]);
    for split in 0..=4usize {
        let child = DNA::crossover_at(&a, &b, split);
        assert_eq!(child.genes.len(), 4);
        assert_eq!(child.curr_gene, 0);
        assert_eq!(child.fitness, 0);
        for i in 0..4usize {
            if i < split {
                assert_eq!(child.genes[i], a.genes[i]);
            } else {
                assert_eq!(child.genes[i], b.genes[i]);
            }
        }
    }
}

#[test]
fn crossover_random_split_is_single_point() {
    let a = dna_with(vec![1; 50]);
    let b = dna_with(vec![2; 50]);
    let child = DNA::crossover(&a, &b);
    assert_eq!(child.genes.len(), 50);
    assert_eq!(child.curr_gene, 0);
    assert_eq!(child.fitness, 0);
    // A prefix of the first parent's genes, then the second parent's.
    let mut seen_b = false;
    for g in &child.genes {
        if *g == 2 {
            seen_b = true;
        } else {
            assert_eq!(*g, 1);
            assert!(!seen_b, "first parent's gene after the split point");
        }
    }
    // The split point lies strictly below the length, so the last gene
    // always comes from the second parent.
    assert!(seen_b);
}

#[test]
fn mutate_rate_zero_changes_nothing() {
    let mut d = dna_with(vec![7, -3, 9, 0, 4]);
    d.curr_gene = 2;
    d.mutate(0, 10000);
    assert_eq!(d.genes, vec![7, -3, 9, 0, 4]);
    assert_eq!(d.curr_gene, 2);
}

#[test]
fn mutate_rate_one_resamples_every_gene() {
    // With certainty and a zero range every gene must be redrawn as zero:
    // a mutation that skipped a gene would leave its old value behind.
    let mut d = dna_with(vec![5, 7, -9, 100]);
    d.mutate(1000000, 0);
    assert_eq!(d.genes, vec![0, 0, 0, 0]);
}

#[test]
fn mutate_keeps_genes_in_range() {
    let mut d = dna_with(vec![30000; 200]);
    d.mutate(500000, 10000);
    for g in &d.genes {
        assert!(*g == 30000 || (-10000 <= *g && *g <= 10000));
    }
}

#[test]
fn randomize_fills_within_bounds() {
    let mut d = dna_with(vec![0; 300]);
    d.randomize(10000);
    for g in &d.genes {
        assert!(-10000 <= *g && *g <= 10000);
    }
}
