//! The mathematical model of nucleotide sequences: what each operation of
//! `Sequence` computes, stated over `Seq<char>`.
use vstd::prelude::*;

verus! {

/// Transcription of one symbol: thymine becomes uracil.
pub open spec fn transcribed_symbol(c: char) -> char {
    if c == 'T' {
        'U'
    } else {
        c
    }
}

/// Back-transcription of one symbol: uracil becomes thymine.
pub open spec fn back_transcribed_symbol(c: char) -> char {
    if c == 'U' {
        'T'
    } else {
        c
    }
}

/// `s` with every 'T' replaced by 'U'.
pub open spec fn transcribed(s: Seq<char>) -> Seq<char> {
    s.map_values(|c: char| transcribed_symbol(c))
}

/// `s` with every 'U' replaced by 'T'.
pub open spec fn back_transcribed(s: Seq<char>) -> Seq<char> {
    s.map_values(|c: char| back_transcribed_symbol(c))
}

/// One of the four DNA bases A, C, G, T.
pub open spec fn is_base(c: char) -> bool {
    c == 'A' || c == 'C' || c == 'G' || c == 'T'
}

/// Every symbol of `s` is a DNA base.
pub open spec fn is_dna(s: Seq<char>) -> bool {
    forall|i: int| 0 <= i < s.len() ==> is_base(#[trigger] s[i])
}

/// The Watson-Crick partner of a base: A and T pair, C and G pair.
pub open spec fn partner(c: char) -> char {
    if c == 'A' {
        'T'
    } else if c == 'T' {
        'A'
    } else if c == 'C' {
        'G'
    } else if c == 'G' {
        'C'
    } else {
        c
    }
}

/// The partner of each base of `s`, in order; symbols that are not bases
/// are dropped.
pub open spec fn complemented(s: Seq<char>) -> Seq<char>
    decreases s.len(),
{
    if s.len() == 0 {
        Seq::empty()
    } else if is_base(s.last()) {
        complemented(s.drop_last()).push(partner(s.last()))
    } else {
        complemented(s.drop_last())
    }
}

/// Number of symbols of `s` that are 'G' or 'C'.
pub open spec fn gc_count(s: Seq<char>) -> nat
    decreases s.len(),
{
    if s.len() == 0 {
        0
    } else {
        gc_count(s.drop_last()) + (if s.last() == 'G' || s.last() == 'C' {
            1nat
        } else {
            0nat
        })
    }
}

/// `pattern` stands in `s` as a contiguous block starting at position `i`.
pub open spec fn occurs_at(s: Seq<char>, pattern: Seq<char>, i: int) -> bool {
    0 <= i && i + pattern.len() <= s.len() && s.subrange(i, i + pattern.len()) == pattern
}

/// `x`, lowered to `n` where it exceeds `n`.
pub open spec fn at_most(x: int, n: int) -> int {
    if x < n {
        x
    } else {
        n
    }
}

/// First position of the counting window: `start`, or the beginning.
pub open spec fn window_start(start: Option<usize>) -> int {
    match start {
        Some(i) => i as int,
        None => 0,
    }
}

/// End (exclusive) of the counting window: `end`, or the end of a sequence of
/// length `n`; positions past the sequence hold no symbol and are left out.
pub open spec fn window_end(end: Option<usize>, n: int) -> int {
    match end {
        Some(e) => at_most(e as int, n),
        None => n,
    }
}

/// Number of positions `i` with `lo <= i` and `i + |pattern| <= hi` at which
/// `pattern` occurs, each counted on its own (occurrences may overlap).
/// An empty pattern is counted nowhere.
pub open spec fn overlapping(s: Seq<char>, pattern: Seq<char>, lo: int, hi: int) -> nat
    decreases hi - lo,
{
    if pattern.len() == 0 || lo + pattern.len() > hi {
        0
    } else {
        (if occurs_at(s, pattern, lo) {
            1nat
        } else {
            0nat
        }) + overlapping(s, pattern, lo + 1, hi)
    }
}

/// Number of occurrences of `pattern` inside `[lo, hi)` found by a left to
/// right scan that, after each occurrence, resumes just past it.
/// An empty pattern is counted nowhere.
pub open spec fn non_overlapping(s: Seq<char>, pattern: Seq<char>, lo: int, hi: int) -> nat
    decreases hi - lo,
{
    if pattern.len() == 0 || lo + pattern.len() > hi {
        0
    } else if occurs_at(s, pattern, lo) {
        1 + non_overlapping(s, pattern, lo + pattern.len(), hi)
    } else {
        non_overlapping(s, pattern, lo + 1, hi)
    }
}

} // verus!
