//! General facts about the cipher model, proved once for every input.
use vstd::prelude::*;

use crate::cipher::{
    alphabet_position, is_letter, letter_positions, reduction_values, results_of, reverse_values,
    standard_values, total,
};

verus! {

/// Number of letters in `s`.
pub open spec fn letter_count(s: Seq<char>) -> nat
    decreases s.len(),
{
    if s.len() == 0 {
        0
    } else if is_letter(s.last()) {
        letter_count(s.drop_last()) + 1
    } else {
        letter_count(s.drop_last())
    }
}

/// `s` and `t` differ at most in the case of their letters.
pub open spec fn same_up_to_case(s: Seq<char>, t: Seq<char>) -> bool {
    &&& s.len() == t.len()
    &&& forall|i: int|
        0 <= i < s.len() ==> #[trigger] s[i] == t[i] || (is_letter(s[i]) && is_letter(t[i])
            && alphabet_position(s[i]) == alphabet_position(t[i]))
}

/// There is one position per letter, and each lies in 1..=26.
pub proof fn lemma_positions_in_alphabet(s: Seq<char>)
    ensures
        letter_positions(s).len() == letter_count(s),
        forall|i: int|
            0 <= i < letter_positions(s).len() ==> 1 <= #[trigger] letter_positions(s)[i] <= 26,
    decreases s.len(),
{
    if s.len() > 0 {
        lemma_positions_in_alphabet(s.drop_last());
    }
}

/// A sum of `v.len()` values, each in `lo..=hi`, lies in `lo * len..=hi * len`.
pub proof fn lemma_total_bounds(v: Seq<int>, lo: int, hi: int)
    requires
        forall|i: int| 0 <= i < v.len() ==> lo <= #[trigger] v[i] <= hi,
    ensures
        lo * v.len() <= total(v) <= hi * v.len(),
    decreases v.len(),
{
    if v.len() > 0 {
        let rest = v.drop_last();
        assert forall|i: int| 0 <= i < rest.len() implies lo <= #[trigger] rest[i] <= hi by {
            assert(rest[i] == v[i]);
        }
        lemma_total_bounds(rest, lo, hi);
        assert(lo * v.len() == lo * rest.len() + lo) by (nonlinear_arith)
            requires
                v.len() == rest.len() + 1,
        ;
        assert(hi * v.len() == hi * rest.len() + hi) by (nonlinear_arith)
            requires
                v.len() == rest.len() + 1,
        ;
    }
}

/// The results are a function of the text alone: equal texts give equal results.
pub proof fn lemma_compute_deterministic(s: Seq<char>, t: Seq<char>)
    requires
        s == t,
    ensures
        results_of(s) == results_of(t),
{
}

/// Texts that differ only in the case of their letters give the same results.
pub proof fn lemma_case_insensitive(s: Seq<char>, t: Seq<char>)
    requires
        same_up_to_case(s, t),
    ensures
        results_of(s) == results_of(t),
{
    lemma_positions_ignore_case(s, t);
}

/// Texts that differ only in the case of their letters have the same letter positions.
proof fn lemma_positions_ignore_case(s: Seq<char>, t: Seq<char>)
    requires
        same_up_to_case(s, t),
    ensures
        letter_positions(s) == letter_positions(t),
    decreases s.len(),
{
    if s.len() > 0 {
        let (s0, t0) = (s.drop_last(), t.drop_last());
        assert(s.last() == s[s.len() - 1]);
        assert(same_up_to_case(s0, t0)) by {
            assert forall|i: int| 0 <= i < s0.len() implies #[trigger] s0[i] == t0[i] || (
            is_letter(s0[i]) && is_letter(t0[i]) && alphabet_position(s0[i]) == alphabet_position(
                t0[i],
            )) by {
                assert(s0[i] == s[i] && t0[i] == t[i]);
            }
        }
        lemma_positions_ignore_case(s0, t0);
    }
}

/// At each letter the standard and reverse values sum to 27, and so the two
/// scores together are 27 per letter.
pub proof fn lemma_standard_reverse_complement(s: Seq<char>)
    ensures
        standard_values(s).len() == reverse_values(s).len(),
        forall|i: int|
            0 <= i < standard_values(s).len() ==> #[trigger] standard_values(s)[i]
                + reverse_values(s)[i] == 27,
        total(standard_values(s)) + total(reverse_values(s)) == 27 * letter_count(s),
    decreases s.len(),
{
    lemma_positions_in_alphabet(s);
    if s.len() > 0 {
        let s0 = s.drop_last();
        lemma_standard_reverse_complement(s0);
        if is_letter(s.last()) {
            assert(standard_values(s).drop_last() =~= standard_values(s0));
            assert(reverse_values(s).drop_last() =~= reverse_values(s0));
        } else {
            assert(standard_values(s) =~= standard_values(s0));
            assert(reverse_values(s) =~= reverse_values(s0));
        }
    }
}

/// Each letter adds between 1 and 9 to the reduction score.
pub proof fn lemma_reduction_bounds(s: Seq<char>)
    ensures
        letter_count(s) <= total(reduction_values(s)) <= 9 * letter_count(s),
{
    lemma_positions_in_alphabet(s);
    let v = reduction_values(s);
    assert forall|i: int| 0 <= i < v.len() implies 1 <= #[trigger] v[i] <= 9 by {
        assert(1 <= letter_positions(s)[i] <= 26);
    }
    lemma_total_bounds(v, 1, 9);
}

} // verus!
