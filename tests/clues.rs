use mastermind::{fit, get_clues, is_valid_code};

fn all_codes() -> Vec<Vec<u64>> {
    let mut out = Vec::new();
    for a in 0..6u64 {
        for b in 0..6u64 {
            for c in 0..6u64 {
                for d in 0..6u64 {
                    out.push(vec![a, b, c, d]);
                }
            }
        }
    }
    out
}

#[test]
fn base_get_clues() {
    assert_eq!(get_clues(&vec![1, 2, 3, 4], &vec![1, 2, 3, 4]), (4, 0));
    assert_eq!(get_clues(&vec![1, 2, 3, 3], &vec![1, 2, 3, 4]), (3, 0));
    assert_eq!(get_clues(&vec![2, 1, 4, 3], &vec![3, 4, 1, 1]), (0, 3));
    assert_eq!(get_clues(&vec![2, 1, 4, 3], &vec![3, 4, 1, 3]), (1, 2));
}

#[test]
fn clues_with_repeated_colors() {
    assert_eq!(get_clues(&vec![0, 0, 1, 1], &vec![1, 1, 0, 0]), (0, 4));
    assert_eq!(get_clues(&vec![5, 5, 5, 5], &vec![5, 0, 0, 0]), (1, 0));
    assert_eq!(get_clues(&vec![0, 1, 2, 3], &vec![4, 5, 4, 5]), (0, 0));
    assert_eq!(get_clues(&vec![1, 1, 2, 2], &vec![1, 2, 1, 2]), (2, 2));
}

#[test]
fn exact_matches_are_symmetric() {
    let codes = all_codes();
    for (i, g) in codes.iter().enumerate().step_by(7) {
        for s in codes.iter().skip(i % 13).step_by(11) {
            assert_eq!(get_clues(g, s).0, get_clues(s, g).0);
        }
    }
}

#[test]
fn clue_bounds_hold() {
    let codes = all_codes();
    for g in codes.iter() {
        for s in codes.iter().step_by(17) {
            let (exact, color) = get_clues(g, s);
            assert!(exact <= 4);
            assert!(exact + color <= 4);
        }
    }
}

#[test]
fn every_code_against_itself() {
    for c in all_codes() {
        assert_eq!(get_clues(&c, &c), (4, 0));
    }
}

#[test]
fn fit_compares_with_the_guess_clue() {
    let guess = vec![2, 1, 4, 3];
    assert!(fit(&vec![3, 4, 1, 3], &guess, 1, 2));
    assert!(!fit(&vec![3, 4, 1, 3], &guess, 0, 3));
    assert!(fit(&vec![3, 4, 1, 1], &guess, 0, 3));
    assert!(fit(&guess, &guess, 4, 0));
}

#[test]
fn code_validity() {
    assert!(is_valid_code(&vec![0, 1, 2, 5]));
    assert!(!is_valid_code(&vec![0, 1, 2, 6]));
    assert!(!is_valid_code(&vec![0, 1, 2]));
    assert!(!is_valid_code(&vec![0, 1, 2, 3, 4]));
    assert!(!is_valid_code(&vec![]));
}
