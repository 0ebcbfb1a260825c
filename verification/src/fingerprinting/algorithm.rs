//! The streaming peak detector that turns PCM audio into a `Signature`.
//!
//! The detector consumes 128-sample chunks. For every chunk, an
//! unverified spectral front end (outside this crate's verified core)
//! computes a 1025-bin power spectrum and hands it over as *magnitude
//! codes*: 32-bit unsigned values whose numeric order is exactly the
//! order of the spectral magnitudes they stand for. All decisions the
//! detector takes - peak spreading, the local-maximum tests, the warm-up
//! window, band classification - compare magnitudes only, so they are
//! carried out here on the codes, bit for bit as on the magnitudes
//! themselves. What needs transcendental arithmetic (the log-compressed
//! peak magnitude and the interpolated bin) is computed by the front end
//! from the three codes around a candidate peak and handed back through
//! `store_peak`.
//!
//! Per chunk: the samples enter a 2048-sample ring; the front end
//! transforms the window into a spectrum; the spectrum enters a 256-deep
//! ring; a 3-bin frequency max-filter produces a spread spectrum, which
//! both enters its own 256-deep ring and is maxed backward into the
//! spread spectra of 1, 3 and 6 passes ago; once at least 46 spectra
//! have been seen, bins that dominate their frequency and time
//! neighbourhoods become peak candidates.

use vstd::prelude::*;

use crate::fingerprinting::signature_format::{
    band_ordinal_spec, DecodedSignature, FrequencyBand, FrequencyPeak, SigView,
};

verus! {

/// The magnitude code of 1/64, the floor a bin must reach to become a
/// peak candidate. (The front end's codes place 1/64 exactly here.)
pub const CODE_ONE_64TH: u32 = 0x3c80_0000;

/// A bin that passed every local-maximum test, together with the three
/// magnitude codes the front end needs to finish the peak: the bin's own
/// and its two immediate neighbours'.
#[derive(Clone, Copy, PartialEq, Eq, Structural, Debug)]
pub struct PeakCandidate {
    pub pass_number: u32,
    pub bin: usize,
    pub magnitude_below: u32,
    pub magnitude: u32,
    pub magnitude_above: u32,
}

/// The larger of two magnitude codes.
pub open spec fn code_max(a: u32, b: u32) -> u32 {
    if a >= b {
        a
    } else {
        b
    }
}

/// The larger of two magnitude codes.
pub fn code_max_exec(a: u32, b: u32) -> (r: u32)
    ensures
        r == code_max(a, b),
{
    if a >= b {
        a
    } else {
        b
    }
}

/// The 3-bin frequency max-filter: every bin up to 1022 becomes the
/// largest of itself and the next two bins.
pub open spec fn spread_frequency(sp: Seq<u32>) -> Seq<u32> {
    Seq::new(
        1025,
        |i: int|
            if i <= 1022 {
                code_max(sp[i], code_max(sp[i + 1], sp[i + 2]))
            } else {
                sp[i]
            },
    )
}

/// Elementwise maximum of two spectra.
pub open spec fn code_max_rows(a: Seq<u32>, b: Seq<u32>) -> Seq<u32> {
    Seq::new(1025, |i: int| code_max(a[i], b[i]))
}

/// The spread-spectrum ring after one pass: the fresh spread spectrum
/// `fs` lands at the cursor, and is maxed backward into the spectra of
/// 1, 3 and 6 passes ago.
pub open spec fn spreads_after(spreads: Seq<Seq<u32>>, pos: int, fs: Seq<u32>) -> Seq<Seq<u32>> {
    Seq::new(
        256,
        |i: int|
            if i == pos {
                fs
            } else if i == (pos - 1) % 256 || i == (pos - 3) % 256 || i == (pos - 6) % 256 {
                code_max_rows(spreads[i], fs)
            } else {
                spreads[i]
            },
    )
}

/// The slot `off` passes away from `pos` in a 256-deep ring.
pub open spec fn ring_slot(pos: int, off: int) -> int {
    (pos + off) % 256
}

/// The largest spread value among the eight frequency neighbours of
/// `bin` (at offsets -10, -7, -4, -3, +1, +2, +5 and +8).
pub open spec fn freq_neighborhood_max(s: Seq<u32>, bin: int) -> u32 {
    code_max(
        s[bin - 10],
        code_max(
            s[bin - 7],
            code_max(
                s[bin - 4],
                code_max(
                    s[bin - 3],
                    code_max(s[bin + 1], code_max(s[bin + 2], code_max(s[bin + 5], s[bin + 8]))),
                ),
            ),
        ),
    )
}

/// The largest spread value at `bin - 1` across the fourteen
/// time-neighbourhood passes (at offsets -53, -45, 165, 172, 179, 186,
/// 193, 200, 214, 221, 228, 235, 242 and 249 from the cursor).
pub open spec fn time_neighborhood_max(spreads: Seq<Seq<u32>>, pos: int, bin: int) -> u32 {
    code_max(
        spreads[ring_slot(pos, -53)][bin - 1],
        code_max(
            spreads[ring_slot(pos, -45)][bin - 1],
            code_max(
                spreads[ring_slot(pos, 165)][bin - 1],
                code_max(
                    spreads[ring_slot(pos, 172)][bin - 1],
                    code_max(
                        spreads[ring_slot(pos, 179)][bin - 1],
                        code_max(
                            spreads[ring_slot(pos, 186)][bin - 1],
                            code_max(
                                spreads[ring_slot(pos, 193)][bin - 1],
                                code_max(
                                    spreads[ring_slot(pos, 200)][bin - 1],
                                    code_max(
                                        spreads[ring_slot(pos, 214)][bin - 1],
                                        code_max(
                                            spreads[ring_slot(pos, 221)][bin - 1],
                                            code_max(
                                                spreads[ring_slot(pos, 228)][bin - 1],
                                                code_max(
                                                    spreads[ring_slot(pos, 235)][bin - 1],
                                                    code_max(
                                                        spreads[ring_slot(pos, 242)][bin - 1],
                                                        spreads[ring_slot(pos, 249)][bin - 1],
                                                    ),
                                                ),
                                            ),
                                        ),
                                    ),
                                ),
                            ),
                        ),
                    ),
                ),
            ),
        ),
    )
}

/// Whether `bin` is a peak in the current pass: loud enough, at least
/// as large as the slightly older spread value below it, and strictly
/// dominating both its frequency and its time neighbourhood.
pub open spec fn is_peak_candidate(
    fft46: Seq<u32>,
    spread49: Seq<u32>,
    spreads: Seq<Seq<u32>>,
    pos: int,
    bin: int,
) -> bool {
    &&& fft46[bin] >= CODE_ONE_64TH
    &&& fft46[bin] >= spread49[bin - 1]
    &&& fft46[bin] > freq_neighborhood_max(spread49, bin)
    &&& fft46[bin] > time_neighborhood_max(spreads, pos, bin)
}

/// The frequency of a corrected (64-scaled) bin in Hz, rounded down:
/// bin * (16000 / 2 / 1024 / 64) = bin * 125 / 1024.
pub open spec fn corrected_bin_frequency(bin: u16) -> int {
    bin * 125 / 1024
}

/// The band a corrected bin falls into, or None outside 250-5500 Hz.
pub open spec fn band_for_corrected_bin(bin: u16) -> Option<FrequencyBand> {
    let f = corrected_bin_frequency(bin);
    if 250 <= f <= 519 {
        Some(FrequencyBand::_250_520)
    } else if 520 <= f <= 1449 {
        Some(FrequencyBand::_520_1450)
    } else if 1450 <= f <= 3499 {
        Some(FrequencyBand::_1450_3500)
    } else if 3500 <= f <= 5500 {
        Some(FrequencyBand::_3500_5500)
    } else {
        None
    }
}

/// A copy of one 1025-bin spectrum row.
fn copy_row(src: &Vec<u32>) -> (out: Vec<u32>)
    ensures
        out@ == src@,
{
    let mut out: Vec<u32> = Vec::new();
    let n = src.len();
    for i in 0..n
        invariant
            n == src@.len(),
            out@.len() == i,
            forall|t: int| 0 <= t < i ==> out@[t] == src@[t],
    {
        let v = src[i];
        out.push(v);
    }
    proof {
        assert(out@ =~= src@);
    }
    out
}

/// Raises every bin of `target` to at least the matching bin of `src`.
fn max_into(target: &mut Vec<u32>, src: &Vec<u32>)
    requires
        old(target)@.len() == 1025,
        src@.len() == 1025,
    ensures
        final(target)@ == code_max_rows(old(target)@, src@),
{
    for i in 0..1025usize
        invariant
            target@.len() == 1025,
            src@.len() == 1025,
            forall|t: int| 0 <= t < i ==> target@[t] == code_max_rows(old(target)@, src@)[t],
            forall|t: int| i <= t < 1025 ==> target@[t] == old(target)@[t],
    {
        let v = code_max_exec(target[i], src[i]);
        target[i] = v;
    }
    proof {
        assert(final(target)@ =~= code_max_rows(old(target)@, src@));
    }
}

/// The streaming state of one recognition attempt: the sample ring, the
/// two spectrum rings with their cursors, the pass counter and the
/// signature being built.
pub struct SignatureGenerator {
    ring_buffer_of_samples: Vec<i16>,
    ring_buffer_of_samples_index: usize,
    fft_outputs: Vec<Vec<u32>>,
    fft_outputs_index: usize,
    spread_fft_outputs: Vec<Vec<u32>>,
    spread_fft_outputs_index: usize,
    num_spread_ffts_done: u32,
    signature: DecodedSignature,
}

impl SignatureGenerator {
    /// Shape of a healthy generator: a 2048-sample ring whose cursor
    /// sits on a chunk boundary, two 256-deep rings of 1025-bin spectra,
    /// and a well-formed signature.
    pub closed spec fn wf(&self) -> bool {
        &&& self.ring_buffer_of_samples@.len() == 2048
        &&& self.ring_buffer_of_samples_index < 2048
        &&& self.ring_buffer_of_samples_index % 128 == 0
        &&& self.fft_outputs@.len() == 256
        &&& forall|i: int| 0 <= i < 256 ==> (#[trigger] self.fft_outputs@[i])@.len() == 1025
        &&& self.spread_fft_outputs@.len() == 256
        &&& forall|i: int| 0 <= i < 256 ==> (#[trigger] self.spread_fft_outputs@[i])@.len() == 1025
        &&& self.spread_fft_outputs_index < 256
        &&& self.fft_outputs_index < 256
        &&& self.signature.wf()
    }

    /// The signature built so far.
    pub closed spec fn sig(&self) -> SigView {
        self.signature@
    }

    /// How many spectra have been ingested.
    pub closed spec fn passes(&self) -> u32 {
        self.num_spread_ffts_done
    }

    /// The sample ring's contents.
    pub closed spec fn samples(&self) -> Seq<i16> {
        self.ring_buffer_of_samples@
    }

    /// The sample ring's cursor.
    pub closed spec fn sample_pos(&self) -> int {
        self.ring_buffer_of_samples_index as int
    }

    /// The raw spectrum ring.
    pub closed spec fn ffts(&self) -> Seq<Seq<u32>> {
        Seq::new(256, |i: int| self.fft_outputs@[i]@)
    }

    /// The raw spectrum ring's cursor.
    pub closed spec fn fft_pos(&self) -> int {
        self.fft_outputs_index as int
    }

    /// The spread spectrum ring.
    pub closed spec fn spreads(&self) -> Seq<Seq<u32>> {
        Seq::new(256, |i: int| self.spread_fft_outputs@[i]@)
    }

    /// The spread spectrum ring's cursor.
    pub closed spec fn spread_pos(&self) -> int {
        self.spread_fft_outputs_index as int
    }

    /// A fresh generator for a recording of `number_samples` samples of
    /// 16 kHz mono PCM: all rings zeroed, no passes done, an empty
    /// signature at 16000 Hz.
    pub fn new(number_samples: u32) -> (g: Self)
        ensures
            g.wf(),
            g.passes() == 0,
            g.sample_pos() == 0,
            g.fft_pos() == 0,
            g.spread_pos() == 0,
            g.samples() =~= Seq::new(2048, |i: int| 0i16),
            g.ffts() =~= Seq::new(256, |i: int| Seq::new(1025, |j: int| 0u32)),
            g.spreads() =~= Seq::new(256, |i: int| Seq::new(1025, |j: int| 0u32)),
            g.sig().sample_rate_hz == 16000,
            g.sig().number_samples == number_samples,
            g.sig().bands =~= Seq::new(4, |i: int| Seq::<FrequencyPeak>::empty()),
    {
        let samples: Vec<i16> = vec![0i16; 2048];
        let mut ffts: Vec<Vec<u32>> = Vec::new();
        let mut spreads: Vec<Vec<u32>> = Vec::new();
        for i in 0..256usize
            invariant
                ffts@.len() == i,
                spreads@.len() == i,
                forall|t: int| 0 <= t < i ==> (#[trigger] ffts@[t])@ =~= Seq::new(1025, |j: int| 0u32),
                forall|t: int|
                    0 <= t < i ==> (#[trigger] spreads@[t])@ =~= Seq::new(1025, |j: int| 0u32),
        {
            let row: Vec<u32> = vec![0u32; 1025];
            let row2: Vec<u32> = vec![0u32; 1025];
            proof {
                assert(row@ =~= Seq::new(1025, |j: int| 0u32));
                assert(row2@ =~= Seq::new(1025, |j: int| 0u32));
            }
            ffts.push(row);
            spreads.push(row2);
        }
        let g = SignatureGenerator {
            ring_buffer_of_samples: samples,
            ring_buffer_of_samples_index: 0,
            fft_outputs: ffts,
            fft_outputs_index: 0,
            spread_fft_outputs: spreads,
            spread_fft_outputs_index: 0,
            num_spread_ffts_done: 0,
            signature: DecodedSignature::new(16000, number_samples),
        };
        proof {
            assert forall|i: int| 0 <= i < 256 implies g.ffts()[i] =~= Seq::new(
                1025,
                |j: int| 0u32,
            ) by {}
            assert forall|i: int| 0 <= i < 256 implies g.spreads()[i] =~= Seq::new(
                1025,
                |j: int| 0u32,
            ) by {}
        }
        g
    }

    /// Takes in the next 128 samples and returns the 2048 most recent
    /// samples in playback order (oldest first), ready for the front
    /// end's windowed transform.
    pub fn ingest_chunk(&mut self, chunk: &[i16]) -> (window: Vec<i16>)
        requires
            old(self).wf(),
            chunk@.len() == 128,
        ensures
            final(self).wf(),
            final(self).sample_pos() == (old(self).sample_pos() + 128) % 2048,
            final(self).samples() =~= Seq::new(
                2048,
                |i: int|
                    if old(self).sample_pos() <= i < old(self).sample_pos() + 128 {
                        chunk@[i - old(self).sample_pos()]
                    } else {
                        old(self).samples()[i]
                    },
            ),
            window@.len() == 2048,
            forall|i: int|
                0 <= i < 2048 ==> window@[i] == final(self).samples()[(i + final(self).sample_pos())
                    % 2048],
            final(self).ffts() == old(self).ffts(),
            final(self).spreads() == old(self).spreads(),
            final(self).fft_pos() == old(self).fft_pos(),
            final(self).spread_pos() == old(self).spread_pos(),
            final(self).passes() == old(self).passes(),
            final(self).sig() == old(self).sig(),
    {
        let start = self.ring_buffer_of_samples_index;
        for j in 0..128usize
            invariant
                start + 128 <= 2048,
                self.ring_buffer_of_samples@.len() == 2048,
                chunk@.len() == 128,
                forall|i: int|
                    0 <= i < 2048 ==> self.ring_buffer_of_samples@[i] == (if start <= i < start
                        + j {
                        chunk@[i - start]
                    } else {
                        old(self).samples()[i]
                    }),
                self.ring_buffer_of_samples_index == old(self).sample_pos(),
                self.fft_outputs@ == old(self).fft_outputs@,
                self.spread_fft_outputs@ == old(self).spread_fft_outputs@,
                self.fft_outputs_index == old(self).fft_outputs_index,
                self.spread_fft_outputs_index == old(self).spread_fft_outputs_index,
                self.num_spread_ffts_done == old(self).num_spread_ffts_done,
                self.signature == old(self).signature,
        {
            let sample = chunk[j];
            self.ring_buffer_of_samples[start + j] = sample;
        }
        self.ring_buffer_of_samples_index = (self.ring_buffer_of_samples_index + 128) % 2048;

        let pos = self.ring_buffer_of_samples_index;
        let mut window: Vec<i16> = Vec::new();
        for i in 0..2048usize
            invariant
                pos < 2048,
                self.ring_buffer_of_samples@.len() == 2048,
                window@.len() == i,
                forall|t: int|
                    0 <= t < i ==> window@[t] == self.ring_buffer_of_samples@[(t + pos) % 2048],
                self.ring_buffer_of_samples@ == final(self).ring_buffer_of_samples@,
        {
            let sample = self.ring_buffer_of_samples[(i + pos) % 2048];
            window.push(sample);
        }
        window
    }

    /// Takes in the next power spectrum (as magnitude codes), spreads
    /// it across frequency and backward across time, counts the pass,
    /// and - once 46 passes have been seen - returns the bins of this
    /// pass's analysis frame that pass every peak test, in ascending
    /// bin order. The first 45 passes never yield a candidate.
    pub fn ingest_spectrum(&mut self, spectrum: Vec<u32>) -> (r: Vec<PeakCandidate>)
        requires
            old(self).wf(),
            spectrum@.len() == 1025,
            old(self).passes() < u32::MAX,
        ensures
            final(self).wf(),
            final(self).passes() == old(self).passes() + 1,
            final(self).fft_pos() == (old(self).fft_pos() + 1) % 256,
            final(self).spread_pos() == (old(self).spread_pos() + 1) % 256,
            final(self).ffts() == old(self).ffts().update(old(self).fft_pos(), spectrum@),
            final(self).spreads() == spreads_after(
                old(self).spreads(),
                old(self).spread_pos(),
                spread_frequency(spectrum@),
            ),
            final(self).sig() == old(self).sig(),
            final(self).samples() == old(self).samples(),
            final(self).sample_pos() == old(self).sample_pos(),
            final(self).passes() < 46 ==> r@.len() == 0,
            final(self).passes() >= 46 ==> ({
                let fft46 = final(self).ffts()[ring_slot(final(self).fft_pos(), -46)];
                let spread49 = final(self).spreads()[ring_slot(final(self).spread_pos(), -49)];
                &&& forall|t: int|
                    0 <= t < r@.len() ==> {
                        let c = #[trigger] r@[t];
                        &&& 10 <= c.bin <= 1014
                        &&& is_peak_candidate(
                            fft46,
                            spread49,
                            final(self).spreads(),
                            final(self).spread_pos(),
                            c.bin as int,
                        )
                        &&& c.pass_number == final(self).passes() - 46
                        &&& c.magnitude_below == fft46[c.bin - 1]
                        &&& c.magnitude == fft46[c.bin as int]
                        &&& c.magnitude_above == fft46[c.bin + 1]
                    }
                &&& forall|b: int|
                    10 <= b <= 1014 && is_peak_candidate(
                        fft46,
                        spread49,
                        final(self).spreads(),
                        final(self).spread_pos(),
                        b,
                    ) ==> exists|t: int| 0 <= t < r@.len() && (#[trigger] r@[t]).bin == b
                &&& forall|t1: int, t2: int|
                    0 <= t1 < t2 < r@.len() ==> r@[t1].bin < r@[t2].bin
            }),
    {
        let ghost sp = spectrum@;

        // File the spectrum in the raw ring.
        let fft_idx = self.fft_outputs_index;
        self.fft_outputs[fft_idx] = spectrum;
        self.fft_outputs_index = (fft_idx + 1) % 256;
        proof {
            assert(self.ffts() =~~= old(self).ffts().update(old(self).fft_pos(), sp));
        }

        // Spread across frequency.
        let mut fs: Vec<u32> = Vec::new();
        for i in 0..1025usize
            invariant
                self.fft_outputs@.len() == 256,
                fft_idx < 256,
                (#[trigger] self.fft_outputs@[fft_idx as int])@ == sp,
                sp.len() == 1025,
                fs@.len() == i,
                forall|t: int| 0 <= t < i ==> fs@[t] == spread_frequency(sp)[t],
        {
            let row = &self.fft_outputs[fft_idx];
            let v = if i <= 1022 {
                code_max_exec(row[i], code_max_exec(row[i + 1], row[i + 2]))
            } else {
                row[i]
            };
            fs.push(v);
        }
        proof {
            assert(fs@ =~= spread_frequency(sp));
        }

        // File the spread spectrum and max it backward in time.
        let spos = self.spread_fft_outputs_index;
        let stored = copy_row(&fs);
        self.spread_fft_outputs[spos] = stored;
        let t1 = (spos + 256 - 1) % 256;
        let t3 = (spos + 256 - 3) % 256;
        let t6 = (spos + 256 - 6) % 256;
        proof {
            assert(t1 as int == (old(self).spread_pos() - 1) % 256);
            assert(t3 as int == (old(self).spread_pos() - 3) % 256);
            assert(t6 as int == (old(self).spread_pos() - 6) % 256);
        }
        max_into(&mut self.spread_fft_outputs[t1], &fs);
        max_into(&mut self.spread_fft_outputs[t3], &fs);
        max_into(&mut self.spread_fft_outputs[t6], &fs);
        self.spread_fft_outputs_index = (spos + 1) % 256;
        proof {
            assert(self.spreads() =~~= spreads_after(
                old(self).spreads(),
                old(self).spread_pos(),
                spread_frequency(sp),
            ));
        }

        self.num_spread_ffts_done = self.num_spread_ffts_done + 1;

        if self.num_spread_ffts_done < 46 {
            return Vec::new();
        }

        // Peak recognition over the frame analysed 46 passes ago.
        let fft46_idx = (self.fft_outputs_index + 256 - 46) % 256;
        let spread49_idx = (self.spread_fft_outputs_index + 256 - 49) % 256;
        proof {
            assert(fft46_idx as int == ring_slot(self.fft_pos(), -46));
            assert(spread49_idx as int == ring_slot(self.spread_pos(), -49));
        }
        let ghost fft46 = self.ffts()[fft46_idx as int];
        let ghost spread49 = self.spreads()[spread49_idx as int];
        let pass = self.num_spread_ffts_done - 46;
        let sidx = self.spread_fft_outputs_index;
        let mut out: Vec<PeakCandidate> = Vec::new();
        for bin in 10..1015usize
            invariant
                self.wf(),
                fft46_idx < 256,
                spread49_idx < 256,
                sidx == self.spread_fft_outputs_index,
                fft46 == self.ffts()[fft46_idx as int],
                spread49 == self.spreads()[spread49_idx as int],
                pass == self.passes() - 46,
                forall|t: int|
                    0 <= t < out@.len() ==> {
                        let c = #[trigger] out@[t];
                        &&& 10 <= c.bin < bin
                        &&& is_peak_candidate(
                            fft46,
                            spread49,
                            self.spreads(),
                            self.spread_pos(),
                            c.bin as int,
                        )
                        &&& c.pass_number == pass
                        &&& c.magnitude_below == fft46[c.bin - 1]
                        &&& c.magnitude == fft46[c.bin as int]
                        &&& c.magnitude_above == fft46[c.bin + 1]
                    },
                forall|b: int|
                    10 <= b < bin && is_peak_candidate(
                        fft46,
                        spread49,
                        self.spreads(),
                        self.spread_pos(),
                        b,
                    ) ==> exists|t: int| 0 <= t < out@.len() && (#[trigger] out@[t]).bin == b,
                forall|t1: int, t2: int| 0 <= t1 < t2 < out@.len() ==> out@[t1].bin < out@[t2].bin,
        {
            proof {
                assert(fft46[bin as int] == self.fft_outputs@[fft46_idx as int]@[bin as int]);
                assert(fft46[bin - 1] == self.fft_outputs@[fft46_idx as int]@[bin - 1]);
                assert(fft46[bin + 1] == self.fft_outputs@[fft46_idx as int]@[bin + 1]);
                assert(forall|j: int|
                    0 <= j < 1025 ==> spread49[j]
                        == self.spread_fft_outputs@[spread49_idx as int]@[j]);
            }
            let v = self.fft_outputs[fft46_idx][bin];
            let s49 = &self.spread_fft_outputs[spread49_idx];
            if v >= CODE_ONE_64TH && v >= s49[bin - 1] {
                let fm = code_max_exec(
                    s49[bin - 10],
                    code_max_exec(
                        s49[bin - 7],
                        code_max_exec(
                            s49[bin - 4],
                            code_max_exec(
                                s49[bin - 3],
                                code_max_exec(
                                    s49[bin + 1],
                                    code_max_exec(
                                        s49[bin + 2],
                                        code_max_exec(s49[bin + 5], s49[bin + 8]),
                                    ),
                                ),
                            ),
                        ),
                    ),
                );
                proof {
                    assert(fm == freq_neighborhood_max(spread49, bin as int));
                }
                if v > fm {
                    let tm = self.time_neighborhood(sidx, bin);
                    if v > tm {
                        let below = self.fft_outputs[fft46_idx][bin - 1];
                        let above = self.fft_outputs[fft46_idx][bin + 1];
                        let c = PeakCandidate {
                            pass_number: pass,
                            bin,
                            magnitude_below: below,
                            magnitude: v,
                            magnitude_above: above,
                        };
                        let ghost out0 = out@;
                        out.push(c);
                        proof {
                            assert(out@[out@.len() - 1].bin == bin);
                            assert forall|b: int|
                                10 <= b < bin + 1 && is_peak_candidate(
                                    fft46,
                                    spread49,
                                    self.spreads(),
                                    self.spread_pos(),
                                    b,
                                ) implies exists|t: int|
                                0 <= t < out@.len() && (#[trigger] out@[t]).bin == b by {
                                if b == bin {
                                    assert(out@[out@.len() - 1].bin == b);
                                } else {
                                    let t = choose|t: int|
                                        0 <= t < out0.len() && (#[trigger] out0[t]).bin == b;
                                    assert(out@[t].bin == b);
                                }
                            }
                        }
                    } else {
                        proof {
                            assert(!is_peak_candidate(
                                fft46,
                                spread49,
                                self.spreads(),
                                self.spread_pos(),
                                bin as int,
                            ));
                        }
                    }
                } else {
                    proof {
                        assert(!is_peak_candidate(
                            fft46,
                            spread49,
                            self.spreads(),
                            self.spread_pos(),
                            bin as int,
                        ));
                    }
                }
            } else {
                proof {
                    assert(!is_peak_candidate(
                        fft46,
                        spread49,
                        self.spreads(),
                        self.spread_pos(),
                        bin as int,
                    ));
                }
            }
        }
        out
    }

    /// The largest spread value at `bin - 1` across the fourteen
    /// time-neighbourhood passes around the cursor.
    #[verifier::rlimit(100)]
    fn time_neighborhood(&self, sidx: usize, bin: usize) -> (r: u32)
        requires
            self.wf(),
            sidx == self.spread_pos(),
            1 <= bin <= 1024,
        ensures
            r == time_neighborhood_max(self.spreads(), self.spread_pos(), bin as int),
    {
        let m53 = self.spread_fft_outputs[(sidx + 256 - 53) % 256][bin - 1];
        let m45 = self.spread_fft_outputs[(sidx + 256 - 45) % 256][bin - 1];
        let p165 = self.spread_fft_outputs[(sidx + 165) % 256][bin - 1];
        let p172 = self.spread_fft_outputs[(sidx + 172) % 256][bin - 1];
        let p179 = self.spread_fft_outputs[(sidx + 179) % 256][bin - 1];
        let p186 = self.spread_fft_outputs[(sidx + 186) % 256][bin - 1];
        let p193 = self.spread_fft_outputs[(sidx + 193) % 256][bin - 1];
        let p200 = self.spread_fft_outputs[(sidx + 200) % 256][bin - 1];
        let p214 = self.spread_fft_outputs[(sidx + 214) % 256][bin - 1];
        let p221 = self.spread_fft_outputs[(sidx + 221) % 256][bin - 1];
        let p228 = self.spread_fft_outputs[(sidx + 228) % 256][bin - 1];
        let p235 = self.spread_fft_outputs[(sidx + 235) % 256][bin - 1];
        let p242 = self.spread_fft_outputs[(sidx + 242) % 256][bin - 1];
        let p249 = self.spread_fft_outputs[(sidx + 249) % 256][bin - 1];
        proof {
            assert(((sidx + 256 - 53) % 256) as int == ring_slot(self.spread_pos(), -53));
            assert(((sidx + 256 - 45) % 256) as int == ring_slot(self.spread_pos(), -45));
        }
        code_max_exec(
            m53,
            code_max_exec(
                m45,
                code_max_exec(
                    p165,
                    code_max_exec(
                        p172,
                        code_max_exec(
                            p179,
                            code_max_exec(
                                p186,
                                code_max_exec(
                                    p193,
                                    code_max_exec(
                                        p200,
                                        code_max_exec(
                                            p214,
                                            code_max_exec(
                                                p221,
                                                code_max_exec(
                                                    p228,
                                                    code_max_exec(
                                                        p235,
                                                        code_max_exec(p242, p249),
                                                    ),
                                                ),
                                            ),
                                        ),
                                    ),
                                ),
                            ),
                        ),
                    ),
                ),
            ),
        )
    }

    /// Files one finished peak: classifies the corrected bin into its
    /// band and appends it there, or discards it when its frequency
    /// falls outside 250-5500 Hz. Everything else is left untouched.
    pub fn store_peak(
        &mut self,
        pass_number: u32,
        peak_magnitude: u16,
        corrected_peak_frequency_bin: u16,
    )
        requires
            old(self).wf(),
        ensures
            final(self).wf(),
            final(self).sig().sample_rate_hz == old(self).sig().sample_rate_hz,
            final(self).sig().number_samples == old(self).sig().number_samples,
            match band_for_corrected_bin(corrected_peak_frequency_bin) {
                Some(band) => final(self).sig().bands =~= old(self).sig().bands.update(
                    band_ordinal_spec(band),
                    old(self).sig().bands[band_ordinal_spec(band)].push(
                        FrequencyPeak {
                            fft_pass_number: pass_number,
                            peak_magnitude,
                            corrected_peak_frequency_bin,
                        },
                    ),
                ),
                None => final(self).sig() == old(self).sig(),
            },
            final(self).samples() == old(self).samples(),
            final(self).sample_pos() == old(self).sample_pos(),
            final(self).ffts() == old(self).ffts(),
            final(self).spreads() == old(self).spreads(),
            final(self).fft_pos() == old(self).fft_pos(),
            final(self).spread_pos() == old(self).spread_pos(),
            final(self).passes() == old(self).passes(),
    {
        let frequency_hz = (corrected_peak_frequency_bin as u32 * 125) / 1024;
        let band = if frequency_hz >= 250 && frequency_hz < 520 {
            FrequencyBand::_250_520
        } else if frequency_hz >= 520 && frequency_hz < 1450 {
            FrequencyBand::_520_1450
        } else if frequency_hz >= 1450 && frequency_hz < 3500 {
            FrequencyBand::_1450_3500
        } else if frequency_hz >= 3500 && frequency_hz <= 5500 {
            FrequencyBand::_3500_5500
        } else {
            return;
        };
        let peak = FrequencyPeak {
            fft_pass_number: pass_number,
            peak_magnitude,
            corrected_peak_frequency_bin,
        };
        self.signature.push_peak(band, peak);
    }

    /// Hands out the finished signature.
    pub fn finish(self) -> (s: DecodedSignature)
        requires
            self.wf(),
        ensures
            s.wf(),
            s@ == self.sig(),
    {
        self.signature
    }
}

} // verus!
