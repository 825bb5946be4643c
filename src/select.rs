//! Minimax choice of the next guess over all 1296 codes.
use vstd::prelude::*;

use crate::clue::{color_matches, exact_matches, fit, get_clues, valid_code, COLORS};

verus! {

/// Number of codes of four pegs over six colors.
pub const ALL_CODES: u64 = 1296;

/// Why no guess could be chosen.
#[derive(Debug, Clone, Copy, PartialEq, Eq, Structural)]
pub enum GuessError {
    /// There are no remaining candidates.
    EmptyCandidateSet,
}

/// The codes held by a vector of vectors.
pub open spec fn codes_of(v: Seq<Vec<u64>>) -> Seq<Seq<u64>> {
    v.map_values(|c: Vec<u64>| c@)
}

/// Every code in `rem` is a valid code.
pub open spec fn all_valid(rem: Seq<Seq<u64>>) -> bool {
    forall|i: int| 0 <= i < rem.len() ==> valid_code(#[trigger] rem[i])
}

/// After playing `g` against the secret `s`, `p` draws the same clue as `s`,
/// so `p` stays possible.
pub open spec fn consistent(p: Seq<u64>, g: Seq<u64>, s: Seq<u64>) -> bool {
    exact_matches(g, p) == exact_matches(g, s) && color_matches(g, p) == color_matches(g, s)
}

/// How many of the first `n` codes of `rem` are ruled out when `g` is played
/// against the secret `s`.
pub open spec fn eliminated_upto(g: Seq<u64>, s: Seq<u64>, rem: Seq<Seq<u64>>, n: int) -> int
    decreases n,
{
    if n <= 0 {
        0
    } else {
        eliminated_upto(g, s, rem, n - 1) + if consistent(rem[n - 1], g, s) {
            0int
        } else {
            1int
        }
    }
}

/// How many codes of `rem` are ruled out when `g` is played against the secret `s`.
pub open spec fn eliminated(g: Seq<u64>, s: Seq<u64>, rem: Seq<Seq<u64>>) -> int {
    eliminated_upto(g, s, rem, rem.len() as int)
}

/// The least of `|rem|` and the elimination counts of `g` against each of the
/// first `n` codes of `rem` taken as the secret.
pub open spec fn worst_upto(g: Seq<u64>, rem: Seq<Seq<u64>>, n: int) -> int
    decreases n,
{
    if n <= 0 {
        rem.len() as int
    } else {
        vstd::math::min(worst_upto(g, rem, n - 1), eliminated(g, rem[n - 1], rem))
    }
}

/// The number of candidates that `g` is sure to rule out, whichever of `rem` is the secret.
pub open spec fn worst(g: Seq<u64>, rem: Seq<Seq<u64>>) -> int {
    worst_upto(g, rem, rem.len() as int)
}

/// The code at place `k` of the enumeration: lexicographic, last peg fastest.
pub open spec fn guess_at(k: int) -> Seq<u64> {
    seq![(k / 216) as u64, ((k / 36) % 6) as u64, ((k / 6) % 6) as u64, (k % 6) as u64]
}

/// Place `k` of the enumeration holds the first code whose worst case is the largest.
pub open spec fn is_first_best(rem: Seq<Seq<u64>>, k: int) -> bool {
    &&& 0 <= k < 1296
    &&& forall|j: int| 0 <= j < 1296 ==> worst(#[trigger] guess_at(j), rem) <= worst(guess_at(k), rem)
    &&& forall|j: int| 0 <= j < k ==> worst(#[trigger] guess_at(j), rem) < worst(guess_at(k), rem)
}

/// `g` is the guess chosen for the candidates `rem`.
pub open spec fn selected(rem: Seq<Seq<u64>>, g: Seq<u64>) -> bool {
    exists|k: int| is_first_best(rem, k) && g == guess_at(k)
}

/// The code at place `k` of the enumeration.
fn code_at(k: u64) -> (r: Vec<u64>)
    requires
        k < 1296,
    ensures
        r@ == guess_at(k as int),
        valid_code(r@),
{
    let r = vec![k / 216, (k / 36) % COLORS, (k / 6) % COLORS, k % COLORS];
    assert(r@ =~= guess_at(k as int));
    r
}

/// How many of `remaining` are ruled out when `guess` is played against `secret`.
pub fn count_eliminated(guess: &Vec<u64>, secret: &Vec<u64>, remaining: &Vec<Vec<u64>>) -> (r:
    usize)
    requires
        valid_code(guess@),
        valid_code(secret@),
        all_valid(codes_of(remaining@)),
    ensures
        r == eliminated(guess@, secret@, codes_of(remaining@)),
{
    let ghost rem = codes_of(remaining@);
    let clue = get_clues(guess, secret);
    let mut r: usize = 0;
    let mut i: usize = 0;
    while i < remaining.len()
        invariant
            0 <= i <= remaining.len(),
            rem == codes_of(remaining@),
            all_valid(rem),
            valid_code(guess@),
            clue.0 == exact_matches(guess@, secret@),
            clue.1 == color_matches(guess@, secret@),
            r == eliminated_upto(guess@, secret@, rem, i as int),
            r <= i,
        decreases remaining.len() - i,
    {
        assert(valid_code(rem[i as int]));
        if !fit(&remaining[i], guess, clue.0, clue.1) {
            r += 1;
        }
        i += 1;
    }
    r
}

/// The number of candidates that `guess` is sure to rule out.
pub fn worst_case(guess: &Vec<u64>, remaining: &Vec<Vec<u64>>) -> (r: usize)
    requires
        valid_code(guess@),
        all_valid(codes_of(remaining@)),
    ensures
        r == worst(guess@, codes_of(remaining@)),
{
    let ghost rem = codes_of(remaining@);
    let mut r: usize = remaining.len();
    let mut i: usize = 0;
    while i < remaining.len()
        invariant
            0 <= i <= remaining.len(),
            rem == codes_of(remaining@),
            all_valid(rem),
            valid_code(guess@),
            r == worst_upto(guess@, rem, i as int),
        decreases remaining.len() - i,
    {
        assert(valid_code(rem[i as int]));
        let n_reduce = count_eliminated(guess, &remaining[i], remaining);
        if n_reduce < r {
            r = n_reduce;
        }
        i += 1;
    }
    r
}

/// The guess to play next: of all 1296 codes, in enumeration order, the first
/// whose worst case is the largest. Fails only when no candidate remains.
pub fn make_a_guess(remaining: &Vec<Vec<u64>>) -> (r: Result<Vec<u64>, GuessError>)
    requires
        all_valid(codes_of(remaining@)),
    ensures
        remaining@.len() == 0 ==> r == Err::<Vec<u64>, GuessError>(GuessError::EmptyCandidateSet),
        remaining@.len() > 0 ==> r is Ok && selected(codes_of(remaining@), r->Ok_0@),
        remaining@.len() > 0 ==> valid_code(r->Ok_0@),
{
    let ghost rem = codes_of(remaining@);
    if remaining.len() == 0 {
        return Err(GuessError::EmptyCandidateSet);
    }
    let ghost mut best_k: int = 0;
    let mut best_comb = code_at(0);
    let mut best_reduce = worst_case(&best_comb, remaining);
    let mut k: u64 = 1;
    while k < ALL_CODES
        invariant
            1 <= k <= 1296,
            rem == codes_of(remaining@),
            all_valid(rem),
            0 <= best_k < k,
            best_comb@ == guess_at(best_k),
            valid_code(best_comb@),
            best_reduce == worst(guess_at(best_k), rem),
            forall|j: int| 0 <= j < k ==> worst(#[trigger] guess_at(j), rem) <= best_reduce,
            forall|j: int| 0 <= j < best_k ==> worst(#[trigger] guess_at(j), rem) < best_reduce,
        decreases 1296 - k,
    {
        let g = code_at(k);
        let w = worst_case(&g, remaining);
        if w > best_reduce {
            best_reduce = w;
            best_comb = g;
            proof {
                best_k = k as int;
            }
        }
        k += 1;
    }
    assert(is_first_best(rem, best_k));
    Ok(best_comb)
}

/// Two guesses that both meet the selection rule for the same candidates are
/// the same guess: the choice is determined by the candidates alone.
pub proof fn lemma_selection_deterministic(rem: Seq<Seq<u64>>, g1: Seq<u64>, g2: Seq<u64>)
    requires
        selected(rem, g1),
        selected(rem, g2),
    ensures
        g1 == g2,
{
    let k1 = choose|k: int| is_first_best(rem, k) && g1 == guess_at(k);
    let k2 = choose|k: int| is_first_best(rem, k) && g2 == guess_at(k);
    if k1 < k2 {
        assert(worst(guess_at(k1), rem) < worst(guess_at(k2), rem));
        assert(worst(guess_at(k2), rem) <= worst(guess_at(k1), rem));
    } else if k2 < k1 {
        assert(worst(guess_at(k2), rem) < worst(guess_at(k1), rem));
        assert(worst(guess_at(k1), rem) <= worst(guess_at(k2), rem));
    }
}

proof fn lemma_eliminated_upto_bound(g: Seq<u64>, s: Seq<u64>, rem: Seq<Seq<u64>>, n: int, i: int)
    requires
        0 <= i < n <= rem.len(),
        rem[i] == s,
    ensures
        0 <= eliminated_upto(g, s, rem, n) <= n - 1,
    decreases n,
{
    if i < n - 1 {
        lemma_eliminated_upto_bound(g, s, rem, n - 1, i);
    } else {
        lemma_eliminated_upto_le(g, s, rem, n - 1);
    }
}

proof fn lemma_eliminated_upto_le(g: Seq<u64>, s: Seq<u64>, rem: Seq<Seq<u64>>, n: int)
    requires
        0 <= n,
    ensures
        0 <= eliminated_upto(g, s, rem, n) <= n,
    decreases n,
{
    if n > 0 {
        lemma_eliminated_upto_le(g, s, rem, n - 1);
    }
}

/// Whatever the guess, the secret itself always survives, so at most all
/// but one candidate is sure to be ruled out.
pub proof fn lemma_worst_below_count(g: Seq<u64>, rem: Seq<Seq<u64>>)
    requires
        rem.len() > 0,
    ensures
        worst(g, rem) <= rem.len() - 1,
{
    let n = rem.len() as int;
    lemma_eliminated_upto_bound(g, rem[n - 1], rem, n, n - 1);
}

/// With a single candidate, the chosen guess rules out all but one candidate,
/// that is none.
pub proof fn lemma_single_candidate(s: Seq<u64>, g: Seq<u64>)
    requires
        valid_code(s),
        selected(seq![s], g),
    ensures
        worst(g, seq![s]) == seq![s].len() - 1,
        worst(g, seq![s]) == 0,
{
    let rem = seq![s];
    lemma_eliminated_upto_le(g, s, rem, 1);
    lemma_worst_below_count(g, rem);
    assert(worst_upto(g, rem, 0) == 1);
}

} // verus!
