use mastermind::{count_eliminated, make_a_guess, worst_case, GuessError};

fn all_codes() -> Vec<Vec<u64>> {
    let mut out = Vec::new();
    for a in 0..6u64 {
        for b in 0..6u64 {
            for c in 0..6u64 {
                for d in 0..6u64 {
                    out.push(vec![a, b, c, d]);
                }
            }
        }
    }
    out
}

#[test]
fn empty_candidate_set_fails() {
    assert_eq!(make_a_guess(&vec![]), Err(GuessError::EmptyCandidateSet));
}

#[test]
fn selection_is_deterministic() {
    let remaining = vec![vec![1, 2, 3, 4], vec![4, 3, 2, 1], vec![1, 1, 2, 2], vec![0, 5, 0, 5]];
    let first = make_a_guess(&remaining);
    let second = make_a_guess(&remaining);
    assert!(first.is_ok());
    assert_eq!(first, second);
}

#[test]
fn single_candidate_gives_a_guess_with_worst_case_zero() {
    let remaining = vec![vec![3, 1, 4, 1]];
    let guess = make_a_guess(&remaining).unwrap();
    assert_eq!(guess.len(), 4);
    assert_eq!(worst_case(&guess, &remaining), 0);
    // Every code ties at zero, so the first one in enumeration order wins.
    assert_eq!(guess, vec![0, 0, 0, 0]);
}

#[test]
fn two_candidates_first_separating_code_wins() {
    let remaining = vec![vec![1, 2, 3, 4], vec![4, 3, 2, 1]];
    assert_eq!(make_a_guess(&remaining), Ok(vec![0, 0, 0, 1]));
    assert_eq!(worst_case(&vec![0, 0, 0, 0], &remaining), 0);
    assert_eq!(worst_case(&vec![0, 0, 0, 1], &remaining), 1);
}

#[test]
fn three_candidates_best_worst_case() {
    let remaining = vec![vec![1, 2, 3, 4], vec![4, 3, 2, 1], vec![1, 1, 2, 2]];
    let guess = make_a_guess(&remaining).unwrap();
    let chosen = worst_case(&guess, &remaining);
    let codes = all_codes();
    let best = codes.iter().map(|g| worst_case(g, &remaining)).max().unwrap();
    assert_eq!(chosen, best);
    let first = codes.iter().position(|g| worst_case(g, &remaining) == best).unwrap();
    assert_eq!(guess, codes[first]);
    assert!(chosen <= remaining.len() - 1);
}

#[test]
fn eliminated_counts() {
    let remaining = vec![vec![1, 2, 3, 4], vec![4, 3, 2, 1], vec![1, 1, 2, 2]];
    // Playing a candidate against itself rules out every other candidate.
    assert_eq!(count_eliminated(&vec![1, 2, 3, 4], &vec![1, 2, 3, 4], &remaining), 2);
    // A guess with no shared color cannot tell the candidates apart.
    assert_eq!(count_eliminated(&vec![0, 0, 5, 5], &vec![4, 3, 2, 1], &remaining), 0);
    // (0,0,0,1): clue (1,0) against 4321, (0,1) against 1234 and 1122.
    assert_eq!(count_eliminated(&vec![0, 0, 0, 1], &vec![4, 3, 2, 1], &remaining), 2);
    assert_eq!(count_eliminated(&vec![0, 0, 0, 1], &vec![1, 1, 2, 2], &remaining), 1);
    assert_eq!(worst_case(&vec![0, 0, 0, 1], &remaining), 1);
}
