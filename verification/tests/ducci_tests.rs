use ducci::{create_ducci_sequence, create_following_ducci, sub_abs};

#[test]
fn test_create_ducci_sequence() {
    let res = create_ducci_sequence(vec![1, 2, 3, 4]);

    assert_eq!(res.len(), 6);

    let res = create_ducci_sequence(vec![1, 2, 3, 4, 5]);

    assert_eq!(res.len(), 0);
}

#[test]
fn test_create_following_ducci() {
    let start = vec![1, 2, 3, 4];

    let mut next = create_following_ducci(start);

    assert_eq!(next, vec![1, 1, 1, 3]);

    next = create_following_ducci(next);

    assert_eq!(next, vec![0, 0, 2, 2]);

    next = create_following_ducci(next);

    assert_eq!(next, vec![0, 2, 0, 2]);

    next = create_following_ducci(next);

    assert_eq!(next, vec![2, 2, 2, 2]);

    next = create_following_ducci(next);

    assert_eq!(next, vec![0, 0, 0, 0]);
}

#[test]
fn test_sub_abs() {
    let (a, b) = (23, 67);

    let res = sub_abs(a, b);

    assert_eq!(res, 44);
}

#[test]
fn full_history_of_four_tuple() {
    let res = create_ducci_sequence(vec![1, 2, 3, 4]);

    assert_eq!(
        res,
        vec![
            vec![1, 2, 3, 4],
            vec![1, 1, 1, 3],
            vec![0, 0, 2, 2],
            vec![0, 2, 0, 2],
            vec![2, 2, 2, 2],
            vec![0, 0, 0, 0],
        ]
    );
}

#[test]
fn history_shape_holds_on_a_signed_input() {
    let start = vec![3, -5, 7, 9];
    let res = create_ducci_sequence(start.clone());

    assert!(!res.is_empty());
    assert_eq!(res[0], start);
    assert_eq!(*res.last().unwrap(), vec![0, 0, 0, 0]);
    for j in 0..res.len() - 1 {
        assert_eq!(res[j + 1], create_following_ducci(res[j].clone()));
        assert!(res[j].iter().any(|&x| x != 0));
        assert_eq!(res[j].len(), start.len());
    }
}

#[test]
fn non_power_of_two_lengths_give_empty_histories() {
    assert!(create_ducci_sequence(vec![1, 2, 3]).is_empty());
    assert!(create_ducci_sequence(vec![9, 9, 9, 9, 9, 9]).is_empty());
    assert!(create_ducci_sequence(vec![1, 2, 3, 4, 5, 6, 7]).is_empty());
}

#[test]
fn empty_input_gives_empty_history() {
    let res = create_ducci_sequence(Vec::new());

    assert!(res.is_empty());
}

#[test]
fn zero_tuple_history_is_just_itself() {
    let res = create_ducci_sequence(vec![0, 0, 0, 0]);

    assert_eq!(res, vec![vec![0, 0, 0, 0]]);
}

#[test]
fn singleton_collapses_in_one_step() {
    let res = create_ducci_sequence(vec![5]);

    assert_eq!(res, vec![vec![5], vec![0]]);
}

#[test]
fn equal_pair_collapses_in_one_step() {
    let res = create_ducci_sequence(vec![7, 7]);

    assert_eq!(res, vec![vec![7, 7], vec![0, 0]]);
}

#[test]
fn step_is_length_preserving_and_non_negative() {
    let next = create_following_ducci(vec![-3, 10, 2, 2]);

    assert_eq!(next.len(), 4);
    assert!(next.iter().all(|&x| x >= 0));
    assert_eq!(next, vec![13, 8, 0, 5]);
}

#[test]
fn zero_tuple_is_a_fixed_point_of_the_step() {
    let next = create_following_ducci(vec![0, 0, 0, 0, 0, 0, 0, 0]);

    assert_eq!(next, vec![0, 0, 0, 0, 0, 0, 0, 0]);
}

#[test]
fn step_commutes_with_rotation() {
    let t = vec![4, -1, 9, 2];
    let rotate = |v: &Vec<i64>| -> Vec<i64> {
        (0..v.len()).map(|i| v[(i + 1) % v.len()]).collect()
    };

    assert_eq!(
        create_following_ducci(rotate(&t)),
        rotate(&create_following_ducci(t))
    );
}

#[test]
fn sub_abs_handles_signs_and_order() {
    assert_eq!(sub_abs(-5, 10), 15);
    assert_eq!(sub_abs(10, -5), 15);
    assert_eq!(sub_abs(-7, -2), 5);
    assert_eq!(sub_abs(8, 8), 0);
}
