//! Clues: exact and color-only matches between two codes.
use vstd::prelude::*;

verus! {

/// Number of positions in a code.
pub const PEGS: usize = 4;

/// Number of colors; a peg holds a value in `0..COLORS`.
pub const COLORS: u64 = 6;

/// A code is four pegs, each a color below six.
pub open spec fn valid_code(c: Seq<u64>) -> bool {
    &&& c.len() == 4
    &&& forall|i: int| 0 <= i < 4 ==> #[trigger] c[i] < 6
}

/// Positions below `n` where `g` and `s` hold the same color.
pub open spec fn exact_upto(g: Seq<u64>, s: Seq<u64>, n: int) -> int
    decreases n,
{
    if n <= 0 {
        0
    } else {
        exact_upto(g, s, n - 1) + if g[n - 1] == s[n - 1] { 1int } else { 0int }
    }
}

/// Occurrences of color `c` among the first `n` pegs of `code`.
pub open spec fn count_color(code: Seq<u64>, c: u64, n: int) -> int
    decreases n,
{
    if n <= 0 {
        0
    } else {
        count_color(code, c, n - 1) + if code[n - 1] == c { 1int } else { 0int }
    }
}

/// The sum over the colors below `k` of the smaller of the two codes' counts of that color.
pub open spec fn overlap_upto(g: Seq<u64>, s: Seq<u64>, k: int) -> int
    decreases k,
{
    if k <= 0 {
        0
    } else {
        let c = (k - 1) as u64;
        overlap_upto(g, s, k - 1) + vstd::math::min(count_color(g, c, 4), count_color(s, c, 4))
    }
}

/// Pegs in the right place.
pub open spec fn exact_matches(g: Seq<u64>, s: Seq<u64>) -> int {
    exact_upto(g, s, 4)
}

/// Pegs of a shared color that are not in the right place.
pub open spec fn color_matches(g: Seq<u64>, s: Seq<u64>) -> int {
    overlap_upto(g, s, 6) - exact_matches(g, s)
}

/// Pegs below `n` where both codes hold color `c`.
spec fn both_color(g: Seq<u64>, s: Seq<u64>, c: u64, n: int) -> int
    decreases n,
{
    if n <= 0 {
        0
    } else {
        both_color(g, s, c, n - 1) + if g[n - 1] == c && s[n - 1] == c { 1int } else { 0int }
    }
}

/// Sum over the colors below `k` of `both_color`.
spec fn both_upto(g: Seq<u64>, s: Seq<u64>, k: int, n: int) -> int
    decreases k,
{
    if k <= 0 {
        0
    } else {
        both_upto(g, s, k - 1, n) + both_color(g, s, (k - 1) as u64, n)
    }
}

/// Sum over the colors below `k` of `count_color`.
spec fn count_upto(code: Seq<u64>, k: int, n: int) -> int
    decreases k,
{
    if k <= 0 {
        0
    } else {
        count_upto(code, k - 1, n) + count_color(code, (k - 1) as u64, n)
    }
}

proof fn lemma_both_le_counts(g: Seq<u64>, s: Seq<u64>, c: u64, n: int)
    ensures
        0 <= both_color(g, s, c, n) <= count_color(g, c, n),
        both_color(g, s, c, n) <= count_color(s, c, n),
    decreases n,
{
    if n > 0 {
        lemma_both_le_counts(g, s, c, n - 1);
    }
}

/// Adding peg `n - 1` to the colors below `k`.
proof fn lemma_both_step(g: Seq<u64>, s: Seq<u64>, k: int, n: int)
    requires
        0 < n <= g.len(),
        n <= s.len(),
        k <= 6,
    ensures
        both_upto(g, s, k, n) == both_upto(g, s, k, n - 1) + if g[n - 1] == s[n - 1] && 0
            <= g[n - 1] < k { 1int } else { 0int },
    decreases k,
{
    if k > 0 {
        lemma_both_step(g, s, k - 1, n);
    }
}

proof fn lemma_count_step(code: Seq<u64>, k: int, n: int)
    requires
        0 < n <= code.len(),
        k <= 6,
    ensures
        count_upto(code, k, n) == count_upto(code, k, n - 1) + if 0 <= code[n - 1] < k {
            1int
        } else {
            0int
        },
    decreases k,
{
    if k > 0 {
        lemma_count_step(code, k - 1, n);
    }
}

proof fn lemma_both_total(g: Seq<u64>, s: Seq<u64>, n: int)
    requires
        valid_code(g),
        valid_code(s),
        0 <= n <= 4,
    ensures
        both_upto(g, s, 6, n) == exact_upto(g, s, n),
    decreases n,
{
    if n > 0 {
        lemma_both_total(g, s, n - 1);
        lemma_both_step(g, s, 6, n);
    } else {
        lemma_both_zero(g, s, 6);
    }
}

proof fn lemma_both_zero(g: Seq<u64>, s: Seq<u64>, k: int)
    ensures
        both_upto(g, s, k, 0) == 0,
    decreases k,
{
    if k > 0 {
        lemma_both_zero(g, s, k - 1);
    }
}

proof fn lemma_count_zero(code: Seq<u64>, k: int)
    ensures
        count_upto(code, k, 0) == 0,
    decreases k,
{
    if k > 0 {
        lemma_count_zero(code, k - 1);
    }
}

proof fn lemma_count_total(code: Seq<u64>, n: int)
    requires
        valid_code(code),
        0 <= n <= 4,
    ensures
        count_upto(code, 6, n) == n,
    decreases n,
{
    if n > 0 {
        lemma_count_total(code, n - 1);
        lemma_count_step(code, 6, n);
    } else {
        lemma_count_zero(code, 6);
    }
}

/// The overlap lies between the colored position matches and the count of pegs.
proof fn lemma_overlap_bounds(g: Seq<u64>, s: Seq<u64>, k: int)
    ensures
        both_upto(g, s, k, 4) <= overlap_upto(g, s, k) <= count_upto(g, k, 4),
    decreases k,
{
    if k > 0 {
        lemma_overlap_bounds(g, s, k - 1);
        lemma_both_le_counts(g, s, (k - 1) as u64, 4);
    }
}

/// The overlap of a code with itself is the sum of its color counts.
proof fn lemma_overlap_self(c: Seq<u64>, k: int)
    ensures
        overlap_upto(c, c, k) == count_upto(c, k, 4),
    decreases k,
{
    if k > 0 {
        lemma_overlap_self(c, k - 1);
    }
}

proof fn lemma_exact_upto_bounds(g: Seq<u64>, s: Seq<u64>, n: int)
    requires
        0 <= n,
    ensures
        0 <= exact_upto(g, s, n) <= n,
    decreases n,
{
    if n > 0 {
        lemma_exact_upto_bounds(g, s, n - 1);
    }
}

/// Both parts of a clue are non-negative, and together they count at most four pegs.
pub proof fn lemma_clue_bounds(g: Seq<u64>, s: Seq<u64>)
    requires
        valid_code(g),
        valid_code(s),
    ensures
        0 <= exact_matches(g, s) <= 4,
        0 <= color_matches(g, s),
        exact_matches(g, s) + color_matches(g, s) <= 4,
{
    lemma_exact_upto_bounds(g, s, 4);
    lemma_overlap_bounds(g, s, 6);
    lemma_both_total(g, s, 4);
    lemma_count_total(g, 4);
}

proof fn lemma_exact_upto_self(c: Seq<u64>, n: int)
    requires
        0 <= n,
    ensures
        exact_upto(c, c, n) == n,
    decreases n,
{
    if n > 0 {
        lemma_exact_upto_self(c, n - 1);
    }
}

/// A code scored against itself has every peg in place and no color-only match.
pub proof fn lemma_self_clue(c: Seq<u64>)
    requires
        valid_code(c),
    ensures
        exact_matches(c, c) == 4,
        color_matches(c, c) == 0,
{
    lemma_exact_upto_self(c, 4);
    lemma_overlap_self(c, 6);
    lemma_count_total(c, 4);
}

proof fn lemma_exact_upto_symmetric(g: Seq<u64>, s: Seq<u64>, n: int)
    ensures
        exact_upto(g, s, n) == exact_upto(s, g, n),
    decreases n,
{
    if n > 0 {
        lemma_exact_upto_symmetric(g, s, n - 1);
    }
}

/// The count of pegs in place does not depend on which code is the guess.
pub proof fn lemma_exact_symmetric(g: Seq<u64>, s: Seq<u64>)
    ensures
        exact_matches(g, s) == exact_matches(s, g),
{
    lemma_exact_upto_symmetric(g, s, 4);
}

/// Whether `code` is four pegs with colors below six.
pub fn is_valid_code(code: &Vec<u64>) -> (r: bool)
    ensures
        r == valid_code(code@),
{
    if code.len() != PEGS {
        return false;
    }
    let mut i: usize = 0;
    while i < PEGS
        invariant
            0 <= i <= 4,
            code@.len() == 4,
            forall|j: int| 0 <= j < i ==> #[trigger] code@[j] < 6,
        decreases 4 - i,
    {
        if code[i] >= COLORS {
            return false;
        }
        i += 1;
    }
    true
}

/// Occurrences of color `c` in a code of four pegs.
fn count_of(code: &Vec<u64>, c: u64) -> (r: u64)
    requires
        code@.len() == 4,
    ensures
        r == count_color(code@, c, 4),
        r <= 4,
{
    let mut r: u64 = 0;
    let mut i: usize = 0;
    while i < PEGS
        invariant
            0 <= i <= 4,
            code@.len() == 4,
            r == count_color(code@, c, i as int),
            r <= i,
        decreases 4 - i,
    {
        if code[i] == c {
            r += 1;
        }
        i += 1;
    }
    r
}

/// The clue for `guess` against `secret`: pegs in place, then pegs of a
/// shared color that are not in place.
pub fn get_clues(guess: &Vec<u64>, secret: &Vec<u64>) -> (r: (u64, u64))
    requires
        valid_code(guess@),
        valid_code(secret@),
    ensures
        r.0 == exact_matches(guess@, secret@),
        r.1 == color_matches(guess@, secret@),
{
    let mut n_correct: u64 = 0;
    let mut i: usize = 0;
    while i < PEGS
        invariant
            0 <= i <= 4,
            guess@.len() == 4,
            secret@.len() == 4,
            n_correct == exact_upto(guess@, secret@, i as int),
            n_correct <= i,
        decreases 4 - i,
    {
        if guess[i] == secret[i] {
            n_correct += 1;
        }
        i += 1;
    }
    let mut overlap: u64 = 0;
    let mut c: u64 = 0;
    while c < COLORS
        invariant
            c <= 6,
            guess@.len() == 4,
            secret@.len() == 4,
            overlap == overlap_upto(guess@, secret@, c as int),
            overlap <= 4 * c,
        decreases 6 - c,
    {
        let in_guess = count_of(guess, c);
        let in_secret = count_of(secret, c);
        overlap += if in_guess < in_secret {
            in_guess
        } else {
            in_secret
        };
        c += 1;
    }
    proof {
        lemma_clue_bounds(guess@, secret@);
    }
    (n_correct, overlap - n_correct)
}

/// Whether `candidate` could still be the secret after `guess` drew the clue
/// `(n_correct, n_almost)`.
pub fn fit(candidate: &Vec<u64>, guess: &Vec<u64>, n_correct: u64, n_almost: u64) -> (r: bool)
    requires
        valid_code(candidate@),
        valid_code(guess@),
    ensures
        r == (exact_matches(guess@, candidate@) == n_correct && color_matches(guess@, candidate@)
            == n_almost),
{
    let clue = get_clues(guess, candidate);
    clue.0 == n_correct && clue.1 == n_almost
}

} // verus!
