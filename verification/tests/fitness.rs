use genetic_operators::ga::fitness::{CountFitness, Fitness};

#[test]
fn test_count_fitness() {
    let arr1 = vec![true; 3];
    let arr2 = vec![false; 3];
    let arr3 = vec![true, false, true];

    let fitness = CountFitness {};

    assert_eq!(fitness.calculate(&arr1) as f32, 3.0);
    assert_eq!(fitness.calculate(&arr2) as f32, 0.0);
    assert_eq!(fitness.calculate(&arr3) as f32, 2.0);
}

#[test]
fn count_fitness_counts_the_set_genes() {
    let fitness = CountFitness {};
    assert_eq!(fitness.calculate(&vec![]), 0);
    assert_eq!(fitness.calculate(&vec![false]), 0);
    assert_eq!(fitness.calculate(&vec![true]), 1);
    assert_eq!(fitness.calculate(&vec![false, true, true, false, true]), 3);
    assert_eq!(fitness.calculate(&vec![true; 1000]), 1000);
}

#[test]
fn count_fitness_is_the_same_for_the_same_genes() {
    let fitness = CountFitness {};
    let genes = vec![true, false, false, true];
    assert_eq!(fitness.calculate(&genes), fitness.calculate(&genes.clone()));
}
