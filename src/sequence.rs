use vstd::prelude::*;

use crate::model::{
    at_most, back_transcribed, back_transcribed_symbol, complemented, gc_count, non_overlapping,
    occurs_at, overlapping, transcribed, transcribed_symbol, window_end, window_start,
};

verus! {

/// The characters of `text`, in order.
fn chars_of(text: &str) -> (r: Vec<char>)
    ensures
        r@ == text@,
{
    let mut out: Vec<char> = Vec::new();
    for c in it: text.chars()
        invariant
            it.seq() == text@,
            out@ == it.seq().take(it.index() as int),
    {
        out.push(c);
    }
    out
}

/// An ordered string of nucleotide symbols. The alphabet is not validated.
#[derive(Debug)]
pub struct Sequence {
    sequence: Vec<char>,
}

impl View for Sequence {
    type V = Seq<char>;

    closed spec fn view(&self) -> Seq<char> {
        self.sequence@
    }
}

impl PartialEq for Sequence {
    /// Two sequences are equal when they hold the same symbols in the same
    /// order.
    fn eq(&self, other: &Sequence) -> (r: bool) {
        let n = self.sequence.len();
        if n != other.sequence.len() {
            return false;
        }
        let mut i: usize = 0;
        while i < n
            invariant
                n == self@.len(),
                n == other@.len(),
                i <= n,
                forall|j: int| 0 <= j < i ==> self@[j] == other@[j],
            decreases n - i,
        {
            if self.sequence[i] != other.sequence[i] {
                return false;
            }
            i += 1;
        }
        assert(self@ =~= other@);
        true
    }
}

impl vstd::std_specs::cmp::PartialEqSpecImpl for Sequence {
    open spec fn obeys_eq_spec() -> bool {
        true
    }

    open spec fn eq_spec(&self, other: &Sequence) -> bool {
        self@ == other@
    }
}

impl Sequence {
    /// A sequence holding a copy of the characters of `sequence`.
    pub fn new(sequence: &str) -> (r: Sequence)
        ensures
            r@ == sequence@,
    {
        Sequence { sequence: chars_of(sequence) }
    }

    /// The number of symbols.
    pub fn len(&self) -> (r: usize)
        ensures
            r == self@.len(),
    {
        self.sequence.len()
    }

    /// Whether the sequence holds no symbol.
    pub fn is_empty(&self) -> (r: bool)
        ensures
            r == (self@.len() == 0),
    {
        self.sequence.len() == 0
    }
    /// The RNA transcript: every 'T' becomes 'U', other symbols are kept.
    pub fn transcribe(&self) -> (r: Sequence)
        ensures
            r@ == transcribed(self@),
    {
        let n = self.sequence.len();
        let mut rna: Vec<char> = Vec::new();
        for i in 0..n
            invariant
                n == self@.len(),
                rna@.len() == i,
                forall|j: int| 0 <= j < i ==> rna@[j] == transcribed_symbol(#[trigger] self@[j]),
        {
            let nucleotide = self.sequence[i];
            if nucleotide == 'T' {
                rna.push('U');
            } else {
                rna.push(nucleotide);
            }
        }
        assert(rna@ =~= transcribed(self@));
        Sequence { sequence: rna }
    }

    /// The DNA of an RNA transcript: every 'U' becomes 'T', other symbols are
    /// kept.
    pub fn back_transcribe(&self) -> (r: Sequence)
        ensures
            r@ == back_transcribed(self@),
    {
        let n = self.sequence.len();
        let mut dna: Vec<char> = Vec::new();
        for i in 0..n
            invariant
                n == self@.len(),
                dna@.len() == i,
                forall|j: int| 0 <= j < i ==> dna@[j] == back_transcribed_symbol(#[trigger] self@[j]),
        {
            let nucleotide = self.sequence[i];
            if nucleotide == 'U' {
                dna.push('T');
            } else {
                dna.push(nucleotide);
            }
        }
        assert(dna@ =~= back_transcribed(self@));
        Sequence { sequence: dna }
    }

    /// The complementary strand: each base replaced by its partner (A with T,
    /// C with G); symbols other than A, C, G, T are dropped.
    pub fn complement(&self) -> (r: Sequence)
        ensures
            r@ == complemented(self@),
    {
        let n = self.sequence.len();
        let mut out: Vec<char> = Vec::new();
        for i in 0..n
            invariant
                n == self@.len(),
                out@ == complemented(self@.take(i as int)),
        {
            let nucleotide = self.sequence[i];
            assert(self@.take(i + 1).drop_last() =~= self@.take(i as int));
            assert(self@.take(i + 1).last() == nucleotide);
            match nucleotide {
                'A' => out.push('T'),
                'T' => out.push('A'),
                'C' => out.push('G'),
                'G' => out.push('C'),
                _ => {},
            }
        }
        assert(self@.take(n as int) =~= self@);
        Sequence { sequence: out }
    }

    /// The symbols in reverse order.
    pub fn reverse(&self) -> (r: Sequence)
        ensures
            r@ == self@.reverse(),
    {
        let n = self.sequence.len();
        let mut out: Vec<char> = Vec::new();
        for i in 0..n
            invariant
                n == self@.len(),
                out@.len() == i,
                forall|j: int| 0 <= j < i ==> out@[j] == self@[n - 1 - j],
        {
            out.push(self.sequence[n - 1 - i]);
        }
        assert(out@ =~= self@.reverse());
        Sequence { sequence: out }
    }

    /// The reverse complement: the reversal, then its complement.
    pub fn reverse_complement(&self) -> (r: Sequence)
        ensures
            r@ == complemented(self@.reverse()),
    {
        let reverse = self.reverse();
        reverse.complement()
    }

    /// The symbols at positions `start .. start + len` that lie inside the
    /// sequence; positions past its end are left out.
    pub fn subsequence(&self, start: usize, len: usize) -> (r: Sequence)
        ensures
            r@ == self@.subrange(
                at_most(start as int, self@.len() as int),
                at_most(start + len, self@.len() as int),
            ),
    {
        let n = self.sequence.len();
        let lo = if start < n { start } else { n };
        let hi = if len < n - lo { lo + len } else { n };
        let mut out: Vec<char> = Vec::new();
        for i in lo..hi
            invariant
                n == self@.len(),
                lo <= hi <= n,
                out@ == self@.subrange(lo as int, i as int),
        {
            assert(self@.subrange(lo as int, i + 1) =~= self@.subrange(lo as int, i as int).push(self@[i as int]));
            out.push(self.sequence[i]);
        }
        Sequence { sequence: out }
    }

    /// Number of symbols that are 'G' or 'C'; the GC content is this number
    /// over `len()`.
    pub fn gc_count(&self) -> (r: usize)
        ensures
            r == gc_count(self@),
    {
        let n = self.sequence.len();
        let mut count: usize = 0;
        for i in 0..n
            invariant
                n == self@.len(),
                count <= i,
                count == gc_count(self@.take(i as int)),
        {
            assert(self@.take(i + 1).drop_last() =~= self@.take(i as int));
            let nucleotide = self.sequence[i];
            if nucleotide == 'G' || nucleotide == 'C' {
                count += 1;
            }
        }
        assert(self@.take(n as int) =~= self@);
        count
    }

    /// Whether `pattern` occurs at position `i`.
    fn matches_at(&self, pattern: &Vec<char>, i: usize) -> (r: bool)
        requires
            i + pattern@.len() <= self@.len(),
        ensures
            r == occurs_at(self@, pattern@, i as int),
    {
        let m = pattern.len();
        let mut k: usize = 0;
        while k < m
            invariant
                k <= m,
                m == pattern@.len(),
                i + m <= self.sequence.len(),
                forall|j: int| 0 <= j < k ==> self@[i + j] == pattern@[j],
            decreases m - k,
        {
            if self.sequence[i + k] != pattern[k] {
                assert(self@.subrange(i as int, i + m)[k as int] != pattern@[k as int]);
                return false;
            }
            k += 1;
        }
        assert(self@.subrange(i as int, i + m) =~= pattern@);
        true
    }

    /// Position of the first occurrence of `pattern`, or `self.len()` where
    /// it does not occur. An empty pattern occurs at position 0.
    pub fn find(&self, pattern: &str) -> (r: usize)
        ensures
            r <= self@.len(),
            forall|j: int| 0 <= j < r ==> !occurs_at(self@, pattern@, j),
            occurs_at(self@, pattern@, r as int) || r == self@.len(),
            (forall|j: int| !occurs_at(self@, pattern@, j)) ==> r == self@.len(),
    {
        let pat = chars_of(pattern);
        let n = self.sequence.len();
        let m = pat.len();
        if m == 0 {
            assert(self@.subrange(0, 0) =~= pat@);
            assert(occurs_at(self@, pattern@, 0));
            return 0;
        }
        if m > n {
            return n;
        }
        let mut i: usize = 0;
        while i <= n - m
            invariant
                n == self@.len(),
                pat@ == pattern@,
                m == pattern@.len(),
                0 < m <= n,
                i <= n - m + 1,
                forall|j: int| 0 <= j < i ==> !occurs_at(self@, pattern@, j),
            decreases n - m + 1 - i,
        {
            if self.matches_at(&pat, i) {
                return i;
            }
            i += 1;
        }
        n
    }

    /// Number of occurrences of `pattern` that start in the window
    /// `[start, end)` (by default the whole sequence) and end inside it,
    /// each counted on its own even where occurrences overlap.
    /// An empty pattern is counted nowhere.
    pub fn overlapping_count(&self, pattern: &str, start: Option<usize>, end: Option<usize>) -> (r: usize)
        ensures
            r == overlapping(self@, pattern@, window_start(start), window_end(end, self@.len() as int)),
    {
        let pat = chars_of(pattern);
        let n = self.sequence.len();
        let m = pat.len();
        if n < m || m == 0 {
            return 0;
        }
        let mut index: usize = match start {
            Some(s) => s,
            None => 0,
        };
        let end_index: usize = match end {
            Some(e) => if e < n { e } else { n },
            None => n,
        };
        let ghost lo = index as int;
        let ghost hi = end_index as int;
        let mut count: usize = 0;
        while index <= end_index && end_index - index >= m
            invariant
                n == self@.len(),
                pat@ == pattern@,
                m == pattern@.len(),
                0 < m,
                hi == end_index,
                end_index <= n,
                count <= index,
                count + overlapping(self@, pattern@, index as int, hi) == overlapping(self@, pattern@, lo, hi),
            decreases end_index - index,
        {
            if self.matches_at(&pat, index) {
                count += 1;
            }
            index += 1;
        }
        count
    }

    /// Number of occurrences of `pattern` in the window `[start, end)` (by
    /// default the whole sequence), scanning left to right and resuming past
    /// each occurrence found, so that no two counted occurrences overlap.
    /// An empty pattern is counted nowhere.
    pub fn non_overlapping_count(&self, pattern: &str, start: Option<usize>, end: Option<usize>) -> (r: usize)
        ensures
            r == non_overlapping(self@, pattern@, window_start(start), window_end(end, self@.len() as int)),
    {
        let pat = chars_of(pattern);
        let n = self.sequence.len();
        let m = pat.len();
        if n < m || m == 0 {
            return 0;
        }
        let mut index: usize = match start {
            Some(s) => s,
            None => 0,
        };
        let end_index: usize = match end {
            Some(e) => if e < n { e } else { n },
            None => n,
        };
        let ghost lo = index as int;
        let ghost hi = end_index as int;
        let mut count: usize = 0;
        while index <= end_index && end_index - index >= m
            invariant
                n == self@.len(),
                pat@ == pattern@,
                m == pattern@.len(),
                0 < m,
                hi == end_index,
                end_index <= n,
                count <= index,
                count + non_overlapping(self@, pattern@, index as int, hi) == non_overlapping(self@, pattern@, lo, hi),
            decreases end_index - index,
        {
            if self.matches_at(&pat, index) {
                count += 1;
                index += m;
            } else {
                index += 1;
            }
        }
        count
    }
}

} // verus!
