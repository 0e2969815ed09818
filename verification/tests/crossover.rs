use genetic_operators::ga::crossover::{
    are_cut_points, cross_at, recombine, Crossover, KPointCrossover, OnePointCrossover,
    UniformCrossover,
};
use genetic_operators::ga::error::GaError;
use genetic_operators::ga::picker::{RandomIndexPicker, SequentialIndexPicker};

fn assert_exchange(a: &Vec<bool>, b: &Vec<bool>, x: &Vec<bool>, y: &Vec<bool>) {
    assert_eq!(x.len(), a.len());
    assert_eq!(y.len(), a.len());
    assert_eq!(b.len(), a.len());
    for p in 0..a.len() {
        assert!(
            (x[p] == a[p] && y[p] == b[p]) || (x[p] == b[p] && y[p] == a[p]),
            "position {}",
            p
        );
    }
}

#[test]
fn test_one_point_crossover() {
    let picker = SequentialIndexPicker {};
    let crossover = OnePointCrossover { picker };

    let mut arr1 = vec![true; 3];
    let arr2 = vec![false; 3];
    let arr3 = vec![true; 1];

    let expected1 = Ok((vec![false, false, false], vec![true, true, true]));
    let actual1 = crossover.crossover(&arr1, &arr2);
    assert_eq!(actual1, expected1);

    assert!(crossover.crossover(&arr1, &arr3).is_err());

    // Changing a parent afterwards does not change its offspring.
    arr1[0] = false;
    assert_eq!(actual1, expected1);
}

#[test]
fn test_k_point_crossover() {
    let arr1 = vec![true; 3];
    let arr2 = vec![false; 3];
    let arr3 = vec![true; 1];

    let picker = SequentialIndexPicker {};
    let crossover1 = KPointCrossover { picker, k: 2 };

    let expected1 = Ok((vec![false, true, true], vec![true, false, false]));
    let actual1 = crossover1.crossover(&arr1, &arr2);
    assert_eq!(actual1, expected1);

    assert!(crossover1.crossover(&arr1, &arr3).is_err());

    let picker = SequentialIndexPicker {};
    let crossover2 = KPointCrossover { picker, k: 5 };

    assert!(crossover2.crossover(&arr1, &arr2).is_err());
}

#[test]
fn test_uniform_crossover() {
    let arr1 = vec![true; 4];
    let arr2 = vec![false; 4];
    let arr3 = vec![true; 1];

    let picker = SequentialIndexPicker {};
    let crossover = UniformCrossover { picker };

    let expected = Ok((
        vec![false, true, true, true],
        vec![true, false, false, false],
    ));
    let actual = crossover.crossover(&arr1, &arr2);
    assert_eq!(actual, expected);

    assert!(crossover.crossover(&arr1, &arr3).is_err());
}

#[test]
fn recombine_changes_sources_at_each_cut_point() {
    let a = vec![true; 5];
    let b = vec![false; 5];
    assert_eq!(
        recombine(&a, &b, &vec![1, 3]),
        Ok((
            vec![true, false, false, true, true],
            vec![false, true, true, false, false],
        ))
    );
    assert_eq!(
        recombine(&a, &b, &vec![0, 1, 2, 3, 4]),
        Ok((
            vec![false, true, false, true, false],
            vec![true, false, true, false, true],
        ))
    );
    assert_eq!(
        recombine(&a, &b, &vec![4]),
        Ok((
            vec![true, true, true, true, false],
            vec![false, false, false, false, true],
        ))
    );
}

#[test]
fn recombine_keeps_mixed_genes_in_place() {
    let a = vec![true, false, true, true, false, false];
    let b = vec![false, false, true, false, true, false];
    assert_eq!(
        recombine(&a, &b, &vec![2, 5]),
        Ok((
            vec![true, false, true, false, true, false],
            vec![false, false, true, true, false, false],
        ))
    );
}

#[test]
fn recombine_without_cut_points_copies_the_parents() {
    let a = vec![true, false, true];
    let b = vec![false, false, true];
    assert_eq!(recombine(&a, &b, &vec![]), Ok((a.clone(), b.clone())));
    let empty: Vec<bool> = Vec::new();
    assert_eq!(recombine(&empty, &empty, &vec![]), Ok((vec![], vec![])));
}

#[test]
fn recombine_refuses_what_are_no_cut_points() {
    let a = vec![true; 4];
    let b = vec![false; 4];
    assert_eq!(recombine(&a, &b, &vec![2, 1]), Err(GaError::InvalidInput));
    assert_eq!(recombine(&a, &b, &vec![1, 1]), Err(GaError::InvalidInput));
    assert_eq!(recombine(&a, &b, &vec![4]), Err(GaError::InvalidInput));
    assert_eq!(recombine(&a, &b, &vec![0, 9]), Err(GaError::InvalidInput));
    let empty: Vec<bool> = Vec::new();
    assert_eq!(recombine(&empty, &empty, &vec![0]), Err(GaError::InvalidInput));
}

#[test]
fn recombine_refuses_parents_of_different_lengths() {
    let a = vec![true; 4];
    let b = vec![false; 3];
    assert_eq!(recombine(&a, &b, &vec![1]), Err(GaError::LengthMismatch));
    assert_eq!(recombine(&b, &a, &vec![1]), Err(GaError::LengthMismatch));
    // The lengths are looked at first.
    assert_eq!(recombine(&a, &b, &vec![7, 2]), Err(GaError::LengthMismatch));
}

#[test]
fn cross_at_splices_the_parents() {
    let a = vec![true, true, false, true, false];
    let b = vec![false, true, true, false, false];
    assert_eq!(
        cross_at(&a, &b, 2),
        Ok((
            vec![true, true, true, false, false],
            vec![false, true, false, true, false],
        ))
    );
    assert_eq!(cross_at(&a, &b, 0), Ok((b.clone(), a.clone())));
    assert_eq!(
        cross_at(&a, &b, 4),
        Ok((
            vec![true, true, false, true, false],
            vec![false, true, true, false, false],
        ))
    );
}

#[test]
fn cross_at_refuses_bad_input() {
    let a = vec![true; 3];
    let b = vec![false; 3];
    let c = vec![false; 2];
    assert_eq!(cross_at(&a, &b, 3), Err(GaError::InvalidInput));
    assert_eq!(cross_at(&a, &b, 100), Err(GaError::InvalidInput));
    assert_eq!(cross_at(&a, &c, 1), Err(GaError::LengthMismatch));
    assert_eq!(cross_at(&a, &c, 100), Err(GaError::LengthMismatch));
    let empty: Vec<bool> = Vec::new();
    assert_eq!(cross_at(&empty, &empty, 0), Err(GaError::InvalidInput));
}

#[test]
fn one_cut_point_is_one_point_crossover() {
    let a = vec![true, false, true, true, false, true, false];
    let b = vec![false, false, true, false, true, true, true];
    for index in 0..10 {
        assert_eq!(recombine(&a, &b, &vec![index]), cross_at(&a, &b, index));
    }
    let shorter = vec![true; 2];
    assert_eq!(recombine(&a, &shorter, &vec![1]), cross_at(&a, &shorter, 1));
}

#[test]
fn k_point_with_one_point_is_one_point_crossover() {
    let a = vec![true, false, true, true];
    let b = vec![false, false, true, false];
    let one_point = OnePointCrossover { picker: SequentialIndexPicker {} };
    let k_point = KPointCrossover { picker: SequentialIndexPicker {}, k: 1 };
    assert_eq!(k_point.crossover(&a, &b), one_point.crossover(&a, &b));
    assert_eq!(k_point.crossover(&a, &b), Ok((b.clone(), a.clone())));
    let empty: Vec<bool> = Vec::new();
    assert_eq!(k_point.crossover(&empty, &empty), one_point.crossover(&empty, &empty));
    assert_eq!(k_point.crossover(&a, &empty), one_point.crossover(&a, &empty));
}

#[test]
fn offspring_keep_the_length_and_the_genes() {
    let a = vec![true, false, true, true, false, true, false, false];
    let b = vec![false, false, true, false, true, true, true, false];
    for _ in 0..50 {
        let one_point = OnePointCrossover { picker: RandomIndexPicker {} };
        let (x, y) = one_point.crossover(&a, &b).unwrap();
        assert_exchange(&a, &b, &x, &y);
        for k in 0..9 {
            let k_point = KPointCrossover { picker: RandomIndexPicker {}, k };
            let (x, y) = k_point.crossover(&a, &b).unwrap();
            assert_exchange(&a, &b, &x, &y);
        }
        let uniform = UniformCrossover { picker: RandomIndexPicker {} };
        let (x, y) = uniform.crossover(&a, &b).unwrap();
        assert_exchange(&a, &b, &x, &y);
    }
}

#[test]
fn parents_of_different_lengths_are_a_length_mismatch() {
    let a = vec![true; 3];
    let b = vec![false; 2];
    let empty: Vec<bool> = Vec::new();
    let one_point = OnePointCrossover { picker: SequentialIndexPicker {} };
    assert_eq!(one_point.crossover(&a, &b), Err(GaError::LengthMismatch));
    assert_eq!(one_point.crossover(&empty, &b), Err(GaError::LengthMismatch));
    let k_point = KPointCrossover { picker: SequentialIndexPicker {}, k: 2 };
    assert_eq!(k_point.crossover(&a, &b), Err(GaError::LengthMismatch));
    assert_eq!(k_point.crossover(&b, &a), Err(GaError::LengthMismatch));
    let uniform = UniformCrossover { picker: SequentialIndexPicker {} };
    assert_eq!(uniform.crossover(&a, &b), Err(GaError::LengthMismatch));
    let random = KPointCrossover { picker: RandomIndexPicker {}, k: 1 };
    assert_eq!(random.crossover(&a, &b), Err(GaError::LengthMismatch));
    // Also where there are more points than genes.
    let too_many = KPointCrossover { picker: SequentialIndexPicker {}, k: 5 };
    assert_eq!(too_many.crossover(&a, &b), Err(GaError::LengthMismatch));
}

#[test]
fn more_points_than_genes_are_invalid_input() {
    let a = vec![true; 3];
    let b = vec![false; 3];
    let sequential = KPointCrossover { picker: SequentialIndexPicker {}, k: 4 };
    assert_eq!(sequential.crossover(&a, &b), Err(GaError::InvalidInput));
    let random = KPointCrossover { picker: RandomIndexPicker {}, k: 4 };
    assert_eq!(random.crossover(&a, &b), Err(GaError::InvalidInput));
    let all = KPointCrossover { picker: SequentialIndexPicker {}, k: 3 };
    assert_eq!(
        all.crossover(&a, &b),
        Ok((vec![false, true, false], vec![true, false, true]))
    );
}

#[test]
fn chromosomes_without_genes() {
    let empty: Vec<bool> = Vec::new();
    let one_point = OnePointCrossover { picker: SequentialIndexPicker {} };
    assert_eq!(one_point.crossover(&empty, &empty), Err(GaError::InvalidInput));
    let uniform = UniformCrossover { picker: SequentialIndexPicker {} };
    assert_eq!(uniform.crossover(&empty, &empty), Err(GaError::InvalidInput));
    let random = UniformCrossover { picker: RandomIndexPicker {} };
    assert_eq!(random.crossover(&empty, &empty), Err(GaError::InvalidInput));
    let no_point = KPointCrossover { picker: SequentialIndexPicker {}, k: 0 };
    assert_eq!(no_point.crossover(&empty, &empty), Ok((vec![], vec![])));
}

#[test]
fn no_cut_point_leaves_the_parents_as_they_are() {
    let a = vec![true, false, true];
    let b = vec![false, false, true];
    let no_point = KPointCrossover { picker: RandomIndexPicker {}, k: 0 };
    assert_eq!(no_point.crossover(&a, &b), Ok((a.clone(), b.clone())));
    // The sequential picker picks no index of a single gene.
    let uniform = UniformCrossover { picker: SequentialIndexPicker {} };
    assert_eq!(
        uniform.crossover(&vec![true], &vec![false]),
        Ok((vec![true], vec![false]))
    );
}

#[test]
fn cut_points_are_recognised() {
    assert!(are_cut_points(&vec![], 0));
    assert!(are_cut_points(&vec![], 3));
    assert!(are_cut_points(&vec![0], 1));
    assert!(are_cut_points(&vec![0, 2, 3], 4));
    assert!(!are_cut_points(&vec![0], 0));
    assert!(!are_cut_points(&vec![0, 2, 4], 4));
    assert!(!are_cut_points(&vec![2, 2], 4));
    assert!(!are_cut_points(&vec![3, 1], 4));
    assert!(!are_cut_points(&vec![0, 1, 3, 2], 4));
}
