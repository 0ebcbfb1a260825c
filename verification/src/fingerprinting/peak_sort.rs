//! Sorting peaks by pass number. The encoder re-sorts every band before
//! writing it, because the delta scheme needs non-decreasing pass
//! numbers; the sort is stable, so a band that is already in order is
//! left exactly as it is.

use vstd::prelude::*;

use crate::fingerprinting::signature_format::{passes_sorted, FrequencyPeak, SigView};

verus! {

/// `p` inserted into `s` from the rear, behind every element whose pass
/// number is at most `p`'s: a stable insertion.
pub open spec fn insert_by_pass(s: Seq<FrequencyPeak>, p: FrequencyPeak) -> Seq<FrequencyPeak>
    decreases s.len(),
{
    if s.len() == 0 {
        seq![p]
    } else if s.last().fft_pass_number <= p.fft_pass_number {
        s.push(p)
    } else {
        insert_by_pass(s.drop_last(), p).push(s.last())
    }
}

/// Stable insertion sort of a peak sequence by pass number.
pub open spec fn sort_peaks(s: Seq<FrequencyPeak>) -> Seq<FrequencyPeak>
    decreases s.len(),
{
    if s.len() == 0 {
        Seq::empty()
    } else {
        insert_by_pass(sort_peaks(s.drop_last()), s.last())
    }
}

/// The same signature with each band's peaks sorted by pass number.
pub open spec fn sorted_view(v: SigView) -> SigView {
    SigView {
        sample_rate_hz: v.sample_rate_hz,
        number_samples: v.number_samples,
        bands: Seq::new(v.bands.len(), |i: int| sort_peaks(v.bands[i])),
    }
}

/// Inserting grows the sequence by one element.
pub proof fn lemma_insert_by_pass_len(s: Seq<FrequencyPeak>, p: FrequencyPeak)
    ensures
        insert_by_pass(s, p).len() == s.len() + 1,
    decreases s.len(),
{
    if s.len() != 0 && s.last().fft_pass_number > p.fft_pass_number {
        lemma_insert_by_pass_len(s.drop_last(), p);
    }
}

/// Sorting keeps the length.
pub proof fn lemma_sort_peaks_len(s: Seq<FrequencyPeak>)
    ensures
        sort_peaks(s).len() == s.len(),
    decreases s.len(),
{
    if s.len() != 0 {
        lemma_sort_peaks_len(s.drop_last());
        lemma_insert_by_pass_len(sort_peaks(s.drop_last()), s.last());
    }
}

/// Inserting into a sorted sequence keeps it sorted.
pub proof fn lemma_insert_by_pass_sorted(s: Seq<FrequencyPeak>, p: FrequencyPeak)
    requires
        passes_sorted(s),
    ensures
        passes_sorted(insert_by_pass(s, p)),
    decreases s.len(),
{
    if s.len() == 0 {
    } else if s.last().fft_pass_number <= p.fft_pass_number {
    } else {
        assert(passes_sorted(s.drop_last()));
        lemma_insert_by_pass_sorted(s.drop_last(), p);
        lemma_insert_by_pass_len(s.drop_last(), p);
        let t = insert_by_pass(s.drop_last(), p);
        assert forall|i: int, j: int|
            0 <= i <= j < t.push(s.last()).len() implies t.push(s.last())[i].fft_pass_number
            <= t.push(s.last())[j].fft_pass_number by {
            lemma_insert_by_pass_elements(s.drop_last(), p);
            if j < t.len() {
            } else {
                if i < t.len() {
                    assert(t[i] == p || s.drop_last().contains(t[i]));
                }
            }
        }
    }
}

/// Every element of an insertion's result is the new element or one of
/// the old ones.
pub proof fn lemma_insert_by_pass_elements(s: Seq<FrequencyPeak>, p: FrequencyPeak)
    ensures
        forall|i: int|
            0 <= i < insert_by_pass(s, p).len() ==> (insert_by_pass(s, p)[i] == p || s.contains(
                #[trigger] insert_by_pass(s, p)[i],
            )),
    decreases s.len(),
{
    if s.len() == 0 {
    } else if s.last().fft_pass_number <= p.fft_pass_number {
        assert forall|i: int| 0 <= i < insert_by_pass(s, p).len() implies (insert_by_pass(s, p)[i]
            == p || s.contains(#[trigger] insert_by_pass(s, p)[i])) by {
            if i < s.len() {
                assert(s[i] == insert_by_pass(s, p)[i]);
            }
        }
    } else {
        lemma_insert_by_pass_elements(s.drop_last(), p);
        lemma_insert_by_pass_len(s.drop_last(), p);
        let t = insert_by_pass(s.drop_last(), p);
        assert forall|i: int| 0 <= i < t.push(s.last()).len() implies (t.push(s.last())[i] == p
            || s.contains(#[trigger] t.push(s.last())[i])) by {
            if i < t.len() {
                if t[i] != p {
                    assert(s.drop_last().contains(t[i]));
                    let w = choose|w: int| 0 <= w < s.drop_last().len() && s.drop_last()[w] == t[i];
                    assert(s[w] == t[i]);
                }
            } else {
                assert(t.push(s.last())[i] == s.last());
                assert(s[s.len() - 1] == s.last());
            }
        }
    }
}

/// A sequence that is already sorted comes back unchanged.
pub proof fn lemma_sort_peaks_of_sorted(s: Seq<FrequencyPeak>)
    requires
        passes_sorted(s),
    ensures
        sort_peaks(s) == s,
    decreases s.len(),
{
    if s.len() != 0 {
        assert(passes_sorted(s.drop_last()));
        lemma_sort_peaks_of_sorted(s.drop_last());
        if s.len() >= 2 {
            assert(s.drop_last().last().fft_pass_number <= s.last().fft_pass_number);
        }
        assert(insert_by_pass(s.drop_last(), s.last()) =~= s);
    } else {
        assert(sort_peaks(s) =~= s);
    }
}

/// Spelled-out form of one stable insertion: the new element lands at
/// index `j`, the first position from the rear whose predecessors all
/// have pass numbers at most the new one's.
pub proof fn lemma_insert_by_pass_at(s: Seq<FrequencyPeak>, p: FrequencyPeak, j: int)
    requires
        0 <= j <= s.len(),
        forall|i: int| j <= i < s.len() ==> s[i].fft_pass_number > p.fft_pass_number,
        j > 0 ==> s[j - 1].fft_pass_number <= p.fft_pass_number,
    ensures
        insert_by_pass(s, p) == s.insert(j, p),
    decreases s.len(),
{
    if s.len() == 0 {
        assert(insert_by_pass(s, p) =~= s.insert(0, p));
    } else if s.last().fft_pass_number <= p.fft_pass_number {
        assert(j == s.len());
        assert(s.push(p) =~= s.insert(j, p));
    } else {
        lemma_insert_by_pass_at(s.drop_last(), p, j);
        assert(insert_by_pass(s.drop_last(), p).push(s.last()) =~= s.insert(j, p));
    }
}

/// A copy of `src` sorted by pass number, stably.
pub fn sort_peak_vec(src: &Vec<FrequencyPeak>) -> (out: Vec<FrequencyPeak>)
    ensures
        out@ == sort_peaks(src@),
        out@.len() == src@.len(),
        passes_sorted(out@),
{
    let mut out: Vec<FrequencyPeak> = Vec::new();
    let n = src.len();
    assert(out@ =~= sort_peaks(src@.take(0)));
    for i in 0..n
        invariant
            n == src@.len(),
            out@ == sort_peaks(src@.take(i as int)),
            out@.len() == i,
            passes_sorted(out@),
    {
        let p = src[i];
        let mut j: usize = out.len();
        while j > 0 && out[j - 1].fft_pass_number > p.fft_pass_number
            invariant
                0 <= j <= out@.len(),
                forall|t: int| j <= t < out@.len() ==> out@[t].fft_pass_number > p.fft_pass_number,
            decreases j,
        {
            j -= 1;
        }
        out.insert(j, p);
        proof {
            lemma_insert_by_pass_at(sort_peaks(src@.take(i as int)), p, j as int);
            assert(src@.take(i + 1).drop_last() =~= src@.take(i as int));
            assert(src@.take(i + 1).last() == p);
            lemma_insert_by_pass_len(sort_peaks(src@.take(i as int)), p);
            lemma_insert_by_pass_sorted(sort_peaks(src@.take(i as int)), p);
        }
    }
    proof {
        assert(src@.take(n as int) =~= src@);
        lemma_sort_peaks_len(src@);
    }
    out
}

} // verus!
