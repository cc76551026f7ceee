//! Laws that hold between the operations of `Sequence`, stated over the
//! model of `crate::model` that their contracts use.
use vstd::prelude::*;

use crate::model::{
    back_transcribed, complemented, is_base, is_dna, non_overlapping, occurs_at, overlapping,
    partner, transcribed, window_end, window_start,
};

verus! {

/// `pattern` has no proper suffix that is also a prefix, so no two of its
/// occurrences can overlap.
pub open spec fn has_no_self_overlap(pattern: Seq<char>) -> bool {
    forall|k: int|
        0 < k < pattern.len() ==> #[trigger] pattern.subrange(k, pattern.len() as int)
            != pattern.subrange(0, pattern.len() - k)
}

/// Transcribing DNA and back-transcribing the result gives the DNA back.
pub proof fn lemma_transcription_round_trip(s: Seq<char>)
    requires
        is_dna(s),
    ensures
        back_transcribed(transcribed(s)) == s,
{
    assert(back_transcribed(transcribed(s)) =~= s);
}

/// Reversing twice gives the sequence back.
pub proof fn lemma_reverse_involution(s: Seq<char>)
    ensures
        s.reverse().reverse() == s,
{
    assert(s.reverse().reverse() =~= s);
}

/// Reversal keeps the length.
pub proof fn lemma_reverse_len(s: Seq<char>)
    ensures
        s.reverse().len() == s.len(),
{
}

/// Complementing drops exactly the symbols that are not DNA bases: the
/// result is never longer, and as long exactly for DNA.
pub proof fn lemma_complement_len(s: Seq<char>)
    ensures
        complemented(s).len() <= s.len(),
        complemented(s).len() == s.len() <==> is_dna(s),
    decreases s.len(),
{
    if s.len() > 0 {
        let rest = s.drop_last();
        lemma_complement_len(rest);
        if is_dna(s) {
            assert forall|i: int| 0 <= i < rest.len() implies is_base(#[trigger] rest[i]) by {
                assert(rest[i] == s[i]);
            }
            assert(is_base(s[s.len() - 1]));
        }
        if is_dna(rest) && is_base(s.last()) {
            assert forall|i: int| 0 <= i < s.len() implies is_base(#[trigger] s[i]) by {
                if i < rest.len() {
                    assert(rest[i] == s[i]);
                }
            }
        }
    }
}

/// On DNA the complement is the partner of each base, in order.
proof fn lemma_complement_of_dna(s: Seq<char>)
    requires
        is_dna(s),
    ensures
        complemented(s) == s.map_values(|c: char| partner(c)),
    decreases s.len(),
{
    if s.len() > 0 {
        let rest = s.drop_last();
        assert(is_base(s[s.len() - 1]));
        assert forall|i: int| 0 <= i < rest.len() implies is_base(#[trigger] rest[i]) by {
            assert(rest[i] == s[i]);
        }
        lemma_complement_of_dna(rest);
        assert(complemented(s) =~= s.map_values(|c: char| partner(c)));
    } else {
        assert(complemented(s) =~= s.map_values(|c: char| partner(c)));
    }
}

/// Complementing DNA twice gives it back.
pub proof fn lemma_double_complement(s: Seq<char>)
    requires
        is_dna(s),
    ensures
        complemented(complemented(s)) == s,
{
    lemma_complement_of_dna(s);
    let c = complemented(s);
    assert forall|i: int| 0 <= i < c.len() implies is_base(#[trigger] c[i]) by {
        assert(is_base(s[i]));
    }
    lemma_complement_of_dna(c);
    assert(complemented(c) =~= s);
}

/// Fewer overlapping counts start further right.
proof fn lemma_overlapping_antitone(s: Seq<char>, pattern: Seq<char>, a: int, b: int, hi: int)
    requires
        a <= b,
    ensures
        overlapping(s, pattern, a, hi) >= overlapping(s, pattern, b, hi),
    decreases b - a,
{
    if a < b {
        lemma_overlapping_antitone(s, pattern, a + 1, b, hi);
    }
}

/// Where `pattern` occurs at no position of `[a, b)`, counting from `a` or
/// from `b` gives the same number.
proof fn lemma_overlapping_skip(s: Seq<char>, pattern: Seq<char>, a: int, b: int, hi: int)
    requires
        a <= b,
        forall|k: int| a <= k < b ==> !occurs_at(s, pattern, k),
    ensures
        overlapping(s, pattern, a, hi) == overlapping(s, pattern, b, hi),
    decreases b - a,
{
    if a < b {
        lemma_overlapping_skip(s, pattern, a + 1, b, hi);
        assert(!occurs_at(s, pattern, a));
    }
}

proof fn lemma_overlapping_bounds_non_overlapping(s: Seq<char>, pattern: Seq<char>, lo: int, hi: int)
    ensures
        overlapping(s, pattern, lo, hi) >= non_overlapping(s, pattern, lo, hi),
    decreases hi - lo,
{
    if pattern.len() > 0 && lo + pattern.len() <= hi {
        if occurs_at(s, pattern, lo) {
            lemma_overlapping_bounds_non_overlapping(s, pattern, lo + pattern.len(), hi);
            lemma_overlapping_antitone(s, pattern, lo + 1, lo + pattern.len(), hi);
        } else {
            lemma_overlapping_bounds_non_overlapping(s, pattern, lo + 1, hi);
        }
    }
}

/// An occurrence of a pattern without self-overlap leaves no room for
/// another one that starts inside it.
proof fn lemma_no_nested_occurrence(s: Seq<char>, pattern: Seq<char>, i: int, k: int)
    requires
        has_no_self_overlap(pattern),
        occurs_at(s, pattern, i),
        0 < k < pattern.len(),
    ensures
        !occurs_at(s, pattern, i + k),
{
    let m = pattern.len() as int;
    if occurs_at(s, pattern, i + k) {
        assert forall|t: int| 0 <= t < m - k implies pattern.subrange(k, m)[t] == pattern.subrange(
            0,
            m - k,
        )[t] by {
            assert(s.subrange(i, i + m)[k + t] == pattern[k + t]);
            assert(s.subrange(i + k, i + k + m)[t] == pattern[t]);
        }
        assert(pattern.subrange(k, m) =~= pattern.subrange(0, m - k));
    }
}

proof fn lemma_counts_agree(s: Seq<char>, pattern: Seq<char>, lo: int, hi: int)
    requires
        has_no_self_overlap(pattern),
    ensures
        overlapping(s, pattern, lo, hi) == non_overlapping(s, pattern, lo, hi),
    decreases hi - lo,
{
    let m = pattern.len() as int;
    if m > 0 && lo + m <= hi {
        if occurs_at(s, pattern, lo) {
            lemma_counts_agree(s, pattern, lo + m, hi);
            assert forall|k: int| lo + 1 <= k < lo + m implies !occurs_at(s, pattern, k) by {
                lemma_no_nested_occurrence(s, pattern, lo, k - lo);
            }
            lemma_overlapping_skip(s, pattern, lo + 1, lo + m, hi);
        } else {
            lemma_counts_agree(s, pattern, lo + 1, hi);
        }
    }
}

/// Counting occurrences that may overlap never gives fewer than counting
/// occurrences that may not, over the same window.
pub proof fn lemma_overlapping_at_least_non_overlapping(
    s: Seq<char>,
    pattern: Seq<char>,
    start: Option<usize>,
    end: Option<usize>,
)
    ensures
        overlapping(s, pattern, window_start(start), window_end(end, s.len() as int))
            >= non_overlapping(s, pattern, window_start(start), window_end(end, s.len() as int)),
{
    lemma_overlapping_bounds_non_overlapping(
        s,
        pattern,
        window_start(start),
        window_end(end, s.len() as int),
    );
}

/// For a pattern without self-overlap the two ways of counting agree.
pub proof fn lemma_counts_agree_without_self_overlap(
    s: Seq<char>,
    pattern: Seq<char>,
    start: Option<usize>,
    end: Option<usize>,
)
    requires
        has_no_self_overlap(pattern),
    ensures
        overlapping(s, pattern, window_start(start), window_end(end, s.len() as int))
            == non_overlapping(s, pattern, window_start(start), window_end(end, s.len() as int)),
{
    lemma_counts_agree(s, pattern, window_start(start), window_end(end, s.len() as int));
}

} // verus!
