//! The signature data model and the spec-level description of its binary
//! wire format: a 48-byte checksummed little-endian header, a fixed
//! type-length-value record repeating the payload size, and one
//! type-length-value block per non-empty frequency band holding a
//! delta-encoded peak list.

use vstd::prelude::*;

use crate::fingerprinting::checksum::{crc32_from, crc32_of};
use crate::fingerprinting::peak_sort::{sort_peak_vec, sort_peaks, sorted_view};
use crate::fingerprinting::wire::{
    le16, le16_at, le32, le32_at, push_u16_le, push_u32_le, read_u16_le, read_u32_le,
};

verus! {

/// First header word, fixed.
pub const HEADER_MAGIC1: u32 = 0xcafe2580;

/// Fourth header word, fixed.
pub const HEADER_MAGIC2: u32 = 0x94119c00;

/// Last header word, fixed: (15 << 19) + 0x40000.
pub const HEADER_FIXED_VALUE: u32 = 0x7c0000;

/// Type word of the degenerate first record of the body, which only
/// repeats the size field of the header.
pub const SIZE_RECORD_TYPE: u32 = 0x40000000;

/// Type word of the peak-list block of the first band; band ordinals
/// 0 to 3 are added to it.
pub const BAND_ID_BASE: u32 = 0x60030040;

/// 2^27; the sample-rate code is stored multiplied by it (that is,
/// left-shifted by 27 bits).
pub const SAMPLE_RATE_SHIFT: u32 = 0x0800_0000;

/// One detected spectral peak.
///
/// `fft_pass_number` is the index of the analysis frame (one frame per
/// 128 samples) in which the peak was found; `peak_magnitude` is a
/// log-compressed fixed-point magnitude; `corrected_peak_frequency_bin`
/// is the interpolated frequency bin, scaled by 64.
#[derive(Clone, Copy, PartialEq, Eq, Structural, Debug)]
pub struct FrequencyPeak {
    pub fft_pass_number: u32,
    pub peak_magnitude: u16,
    pub corrected_peak_frequency_bin: u16,
}

/// The four frequency bands that peaks are bucketed into, in ordinal
/// order: 250-520 Hz, 520-1450 Hz, 1450-3500 Hz and 3500-5500 Hz.
#[derive(Clone, Copy, PartialEq, Eq, Structural, Debug, Hash)]
pub enum FrequencyBand {
    _250_520,
    _520_1450,
    _1450_3500,
    _3500_5500,
}

/// The reason a decode rejected its input, or an encode could not run.
#[derive(Clone, Copy, PartialEq, Eq, Structural, Debug)]
pub enum SignatureError {
    /// The buffer is shorter than the 48-byte header plus the 8-byte
    /// fixed size record.
    TooShort,
    /// The first magic word does not match.
    BadMagic1,
    /// The checksum field does not equal the CRC-32 of the bytes from
    /// offset 8 to the end.
    BadChecksum,
    /// The size field does not equal the buffer length minus 48.
    BadSize,
    /// The second magic word does not match.
    BadMagic2,
    /// The sample-rate code is not one of the six known ones.
    InvalidSampleRate,
    /// The stored sample count is smaller than the fixed latency offset
    /// that encoding added to it.
    BadSampleCount,
    /// The fixed size record after the header does not hold its two
    /// expected words.
    BadSizeRecord,
    /// A peak-list block names a band outside the four known ones.
    BadBandId,
    /// A peak-list block or record claims more bytes than the buffer holds.
    Truncated,
    /// A delta byte pushes the running pass number above the 32-bit range.
    PassNumberOverflow,
    /// The textual form does not start with the expected data-URI prefix.
    BadUriPrefix,
    /// The textual form's payload is not valid base64.
    BadBase64,
}

impl SignatureError {
    /// A short human-readable description of the error.
    pub fn message(&self) -> (m: &'static str)
        ensures
            m@ == error_message_spec(*self),
    {
        match self {
            SignatureError::TooShort => "buffer too short for a signature",
            SignatureError::BadMagic1 => "bad first magic word",
            SignatureError::BadChecksum => "checksum mismatch",
            SignatureError::BadSize => "size field does not match buffer length",
            SignatureError::BadMagic2 => "bad second magic word",
            SignatureError::InvalidSampleRate => "unknown sample rate code",
            SignatureError::BadSampleCount => "sample count below latency offset",
            SignatureError::BadSizeRecord => "bad fixed size record",
            SignatureError::BadBandId => "unknown frequency band id",
            SignatureError::Truncated => "truncated peak list",
            SignatureError::PassNumberOverflow => "pass number overflows 32 bits",
            SignatureError::BadUriPrefix => "missing data-URI prefix",
            SignatureError::BadBase64 => "invalid base64 payload",
        }
    }
}

/// The text `message` returns for each error.
pub open spec fn error_message_spec(e: SignatureError) -> Seq<char> {
    match e {
        SignatureError::TooShort => "buffer too short for a signature"@,
        SignatureError::BadMagic1 => "bad first magic word"@,
        SignatureError::BadChecksum => "checksum mismatch"@,
        SignatureError::BadSize => "size field does not match buffer length"@,
        SignatureError::BadMagic2 => "bad second magic word"@,
        SignatureError::InvalidSampleRate => "unknown sample rate code"@,
        SignatureError::BadSampleCount => "sample count below latency offset"@,
        SignatureError::BadSizeRecord => "bad fixed size record"@,
        SignatureError::BadBandId => "unknown frequency band id"@,
        SignatureError::Truncated => "truncated peak list"@,
        SignatureError::PassNumberOverflow => "pass number overflows 32 bits"@,
        SignatureError::BadUriPrefix => "missing data-URI prefix"@,
        SignatureError::BadBase64 => "invalid base64 payload"@,
    }
}

/// The ordinal of a band, 0 to 3.
pub open spec fn band_ordinal_spec(b: FrequencyBand) -> int {
    match b {
        FrequencyBand::_250_520 => 0,
        FrequencyBand::_520_1450 => 1,
        FrequencyBand::_1450_3500 => 2,
        FrequencyBand::_3500_5500 => 3,
    }
}

/// The band with the given ordinal, 0 to 3.
pub open spec fn band_of_ordinal(k: int) -> FrequencyBand {
    if k == 0 {
        FrequencyBand::_250_520
    } else if k == 1 {
        FrequencyBand::_520_1450
    } else if k == 2 {
        FrequencyBand::_1450_3500
    } else {
        FrequencyBand::_3500_5500
    }
}

/// The wire code of a sample rate in Hz; 0 stands for "not a known rate".
pub open spec fn sample_rate_id_spec(rate: u32) -> u32 {
    if rate == 8000 {
        1u32
    } else if rate == 11025 {
        2u32
    } else if rate == 16000 {
        3u32
    } else if rate == 32000 {
        4u32
    } else if rate == 44100 {
        5u32
    } else if rate == 48000 {
        6u32
    } else {
        0u32
    }
}

/// The sample rate in Hz for a wire code; 0 stands for "not a known code".
pub open spec fn sample_rate_from_id_spec(id: u32) -> u32 {
    if id == 1 {
        8000u32
    } else if id == 2 {
        11025u32
    } else if id == 3 {
        16000u32
    } else if id == 4 {
        32000u32
    } else if id == 5 {
        44100u32
    } else if id == 6 {
        48000u32
    } else {
        0u32
    }
}

/// Whether `rate` is one of the six rates the wire format can carry.
pub open spec fn valid_sample_rate(rate: u32) -> bool {
    sample_rate_id_spec(rate) != 0
}

/// floor(rate * 0.24): the fixed latency offset, in samples, that the
/// header adds to the sample count.
pub open spec fn sample_offset_spec(rate: u32) -> u32
    recommends
        valid_sample_rate(rate),
{
    (rate * 6 / 25) as u32
}

/// The wire code of a sample rate, 0 for an unknown rate.
pub fn sample_rate_id(rate: u32) -> (id: u32)
    ensures
        id == sample_rate_id_spec(rate),
{
    match rate {
        8000 => 1,
        11025 => 2,
        16000 => 3,
        32000 => 4,
        44100 => 5,
        48000 => 6,
        _ => 0,
    }
}

/// The sample rate for a wire code, 0 for an unknown code.
pub fn sample_rate_from_id(id: u32) -> (rate: u32)
    ensures
        rate == sample_rate_from_id_spec(id),
{
    match id {
        1 => 8000,
        2 => 11025,
        3 => 16000,
        4 => 32000,
        5 => 44100,
        6 => 48000,
        _ => 0,
    }
}

/// floor(rate * 0.24) for a known rate.
pub fn sample_offset(rate: u32) -> (off: u32)
    requires
        valid_sample_rate(rate),
    ensures
        off == sample_offset_spec(rate),
{
    rate * 6 / 25
}

/// The mathematical value of a signature: its rate, its sample count,
/// and the peak sequence of each of the four bands, by band ordinal.
pub ghost struct SigView {
    pub sample_rate_hz: u32,
    pub number_samples: u32,
    pub bands: Seq<Seq<FrequencyPeak>>,
}

/// A view is shaped right when it has exactly one peak sequence per band.
pub open spec fn view_wf(v: SigView) -> bool {
    v.bands.len() == 4
}

/// The sparse spectral-peak fingerprint of an audio clip.
///
/// `frequency_band_to_sound_peaks` holds one peak list per band, indexed
/// by band ordinal; it always holds exactly four lists.
#[derive(Debug)]
pub struct DecodedSignature {
    pub sample_rate_hz: u32,
    pub number_samples: u32,
    frequency_band_to_sound_peaks: Vec<Vec<FrequencyPeak>>,
}

impl View for DecodedSignature {
    type V = SigView;

    closed spec fn view(&self) -> SigView {
        SigView {
            sample_rate_hz: self.sample_rate_hz,
            number_samples: self.number_samples,
            bands: Seq::new(4, |i: int| self.frequency_band_to_sound_peaks@[i]@),
        }
    }
}

impl DecodedSignature {
    /// Whether the peak storage has its four per-band lists.
    pub closed spec fn wf(&self) -> bool {
        self.frequency_band_to_sound_peaks@.len() == 4
    }

    /// A fresh signature with the given rate and sample count and no peaks.
    pub fn new(sample_rate_hz: u32, number_samples: u32) -> (s: Self)
        ensures
            s.wf(),
            s@.sample_rate_hz == sample_rate_hz,
            s@.number_samples == number_samples,
            s@.bands =~= Seq::new(4, |i: int| Seq::<FrequencyPeak>::empty()),
    {
        let mut bands: Vec<Vec<FrequencyPeak>> = Vec::new();
        bands.push(Vec::new());
        bands.push(Vec::new());
        bands.push(Vec::new());
        bands.push(Vec::new());
        let s = DecodedSignature {
            sample_rate_hz,
            number_samples,
            frequency_band_to_sound_peaks: bands,
        };
        proof {
            assert forall|i: int| 0 <= i < 4 implies s@.bands[i] =~= Seq::<
                FrequencyPeak,
            >::empty() by {}
        }
        s
    }

    /// Appends `peak` at the end of `band`'s list; the other bands and
    /// the scalar fields stay as they were.
    pub fn push_peak(&mut self, band: FrequencyBand, peak: FrequencyPeak)
        requires
            old(self).wf(),
        ensures
            final(self).wf(),
            final(self)@.sample_rate_hz == old(self)@.sample_rate_hz,
            final(self)@.number_samples == old(self)@.number_samples,
            final(self)@.bands =~= old(self)@.bands.update(
                band_ordinal_spec(band),
                old(self)@.bands[band_ordinal_spec(band)].push(peak),
            ),
    {
        let k: usize = match band {
            FrequencyBand::_250_520 => 0,
            FrequencyBand::_520_1450 => 1,
            FrequencyBand::_1450_3500 => 2,
            FrequencyBand::_3500_5500 => 3,
        };
        self.frequency_band_to_sound_peaks[k].push(peak);
    }

    /// The peak list of `band`, in storage order.
    pub fn peaks_in_band(&self, band: FrequencyBand) -> (r: &Vec<FrequencyPeak>)
        requires
            self.wf(),
        ensures
            r@ == self@.bands[band_ordinal_spec(band)],
    {
        let k: usize = match band {
            FrequencyBand::_250_520 => 0,
            FrequencyBand::_520_1450 => 1,
            FrequencyBand::_1450_3500 => 2,
            FrequencyBand::_3500_5500 => 3,
        };
        &self.frequency_band_to_sound_peaks[k]
    }
}

/// A sequence of `n` zero bytes.
pub open spec fn zeros(n: int) -> Seq<u8> {
    Seq::new(n as nat, |i: int| 0u8)
}

/// How many zero bytes pad a block of `n` bytes to a 4-byte boundary.
pub open spec fn pad4(n: int) -> int {
    (4 - n % 4) % 4
}

/// Whether the pass numbers of `ps` are non-decreasing.
pub open spec fn passes_sorted(ps: Seq<FrequencyPeak>) -> bool {
    forall|i: int, j: int|
        0 <= i <= j < ps.len() ==> ps[i].fft_pass_number <= ps[j].fft_pass_number
}

/// The bytes one peak contributes to its band's list, with `last` the
/// running pass number: an absolute-pass escape when the gap is 255 or
/// more, then a delta byte, the magnitude and the corrected bin.
pub open spec fn peak_bytes(last: u32, p: FrequencyPeak) -> Seq<u8>
    recommends
        last <= p.fft_pass_number,
{
    let tail = le16(p.peak_magnitude) + le16(p.corrected_peak_frequency_bin);
    if p.fft_pass_number >= last + 255 {
        seq![0xffu8] + le32(p.fft_pass_number) + seq![0u8] + tail
    } else {
        seq![(p.fft_pass_number - last) as u8] + tail
    }
}

/// The delta-encoded byte form of a whole peak list, starting from the
/// running pass number `last`.
pub open spec fn peaks_bytes(ps: Seq<FrequencyPeak>, last: u32) -> Seq<u8>
    decreases ps.len(),
{
    if ps.len() == 0 {
        Seq::empty()
    } else {
        peak_bytes(last, ps[0]) + peaks_bytes(ps.skip(1), ps[0].fft_pass_number)
    }
}

/// The type-length-value block of band ordinal `k`: its id word, the
/// byte length of the peak list, the list itself and zero padding to a
/// 4-byte boundary. An empty band contributes no block.
pub open spec fn band_block(k: int, ps: Seq<FrequencyPeak>) -> Seq<u8> {
    if ps.len() == 0 {
        Seq::empty()
    } else {
        let body = peaks_bytes(ps, 0);
        le32((BAND_ID_BASE + k) as u32) + le32(body.len() as u32) + body + zeros(
            pad4(body.len() as int),
        )
    }
}

/// The concatenated blocks of bands `k` to 3.
pub open spec fn blocks_from(bands: Seq<Seq<FrequencyPeak>>, k: int) -> Seq<u8>
    decreases 4 - k,
{
    if k < 0 || k >= 4 {
        Seq::empty()
    } else {
        band_block(k, bands[k]) + blocks_from(bands, k + 1)
    }
}

/// The length of the whole encoding of `v`: the 48-byte header, the
/// 8-byte size record and the band blocks.
pub open spec fn encoded_len_spec(v: SigView) -> int {
    56 + blocks_from(v.bands, 0).len() as int
}

/// Everything from byte 8 of the encoding onward: the part the checksum
/// covers.
pub open spec fn encoded_tail(v: SigView) -> Seq<u8> {
    let blocks = blocks_from(v.bands, 0);
    let size_minus_header = (blocks.len() + 8) as u32;
    le32(size_minus_header) + le32(HEADER_MAGIC2) + zeros(12) + le32(
        (sample_rate_id_spec(v.sample_rate_hz) * SAMPLE_RATE_SHIFT) as u32,
    ) + zeros(8) + le32((v.number_samples + sample_offset_spec(v.sample_rate_hz)) as u32) + le32(
        HEADER_FIXED_VALUE,
    ) + le32(SIZE_RECORD_TYPE) + le32(size_minus_header) + blocks
}

/// The complete binary encoding of `v`: the first magic word, the CRC-32
/// of the tail, then the tail.
pub open spec fn encode_spec(v: SigView) -> Seq<u8> {
    le32(HEADER_MAGIC1) + le32(crc32_of(encoded_tail(v))) + encoded_tail(v)
}

/// The peak lists of four bands, all empty.
pub open spec fn empty_bands() -> Seq<Seq<FrequencyPeak>> {
    Seq::new(4, |i: int| Seq::<FrequencyPeak>::empty())
}

/// The per-band peak sequences held by a vector of four peak lists.
pub open spec fn bands_seq(b: Vec<Vec<FrequencyPeak>>) -> Seq<Seq<FrequencyPeak>> {
    Seq::new(b@.len(), |i: int| b@[i]@)
}

/// Parses one band's delta-encoded peak list. `rem` is exactly the
/// list's bytes; `last` is the running pass number and `acc` what the
/// band already holds. A leading 0xff byte carries an absolute pass
/// number and no peak; any other byte is a delta, followed by the
/// magnitude and the corrected bin.
pub open spec fn parse_peaks_spec(rem: Seq<u8>, last: u32, acc: Seq<FrequencyPeak>) -> Result<
    Seq<FrequencyPeak>,
    SignatureError,
>
    decreases rem.len(),
{
    if rem.len() == 0 {
        Ok(acc)
    } else if rem.len() < 5 {
        Err(SignatureError::Truncated)
    } else if rem[0] == 0xff {
        parse_peaks_spec(rem.skip(5), le32_at(rem, 1), acc)
    } else if last + rem[0] > u32::MAX {
        Err(SignatureError::PassNumberOverflow)
    } else {
        let pass = (last + rem[0]) as u32;
        parse_peaks_spec(
            rem.skip(5),
            pass,
            acc.push(
                FrequencyPeak {
                    fft_pass_number: pass,
                    peak_magnitude: le16_at(rem, 1),
                    corrected_peak_frequency_bin: le16_at(rem, 3),
                },
            ),
        )
    }
}

/// Parses the band blocks that follow the fixed size record. Each block
/// is a band id, a byte length, the peak list and padding to a 4-byte
/// boundary; a block's peaks are appended to its band.
pub open spec fn parse_blocks_spec(rem: Seq<u8>, bands: Seq<Seq<FrequencyPeak>>) -> Result<
    Seq<Seq<FrequencyPeak>>,
    SignatureError,
>
    decreases rem.len(),
{
    if rem.len() == 0 {
        Ok(bands)
    } else if rem.len() < 8 {
        Err(SignatureError::Truncated)
    } else {
        let id = le32_at(rem, 0);
        let size = le32_at(rem, 4) as int;
        if id < BAND_ID_BASE || id > BAND_ID_BASE + 3 {
            Err(SignatureError::BadBandId)
        } else if size > rem.len() - 8 {
            Err(SignatureError::Truncated)
        } else {
            let k = id - BAND_ID_BASE;
            match parse_peaks_spec(rem.subrange(8, 8 + size), 0, bands[k as int]) {
                Err(e) => Err(e),
                Ok(ps) => {
                    let consumed = 8 + size + pad4(size);
                    let bands2 = bands.update(k as int, ps);
                    if consumed >= rem.len() {
                        Ok(bands2)
                    } else {
                        parse_blocks_spec(rem.skip(consumed), bands2)
                    }
                },
            }
        }
    }
}

/// The value `decode_from_binary` returns for any input, error included.
///
/// The checks run in this order: overall length, first magic word,
/// checksum, size field, second magic word, sample-rate code, sample
/// count, fixed size record, then the band blocks.
pub open spec fn decode_spec(d: Seq<u8>) -> Result<SigView, SignatureError> {
    if d.len() < 56 {
        Err(SignatureError::TooShort)
    } else if le32_at(d, 0) != HEADER_MAGIC1 {
        Err(SignatureError::BadMagic1)
    } else if le32_at(d, 4) != crc32_of(d.skip(8)) {
        Err(SignatureError::BadChecksum)
    } else if le32_at(d, 8) as int != d.len() - 48 {
        Err(SignatureError::BadSize)
    } else if le32_at(d, 12) != HEADER_MAGIC2 {
        Err(SignatureError::BadMagic2)
    } else {
        let rate = sample_rate_from_id_spec(le32_at(d, 28) / SAMPLE_RATE_SHIFT);
        if rate == 0 {
            Err(SignatureError::InvalidSampleRate)
        } else if le32_at(d, 40) < sample_offset_spec(rate) {
            Err(SignatureError::BadSampleCount)
        } else if le32_at(d, 48) != SIZE_RECORD_TYPE || le32_at(d, 52) as int != d.len() - 48 {
            Err(SignatureError::BadSizeRecord)
        } else {
            match parse_blocks_spec(d.skip(56), empty_bands()) {
                Err(e) => Err(e),
                Ok(bands) => Ok(
                    SigView {
                        sample_rate_hz: rate,
                        number_samples: (le32_at(d, 40) - sample_offset_spec(rate)) as u32,
                        bands,
                    },
                ),
            }
        }
    }
}

/// What encoding needs of a signature beyond a known sample rate: the
/// adjusted sample count and the total length must fit in 32 bits.
pub open spec fn encodable(v: SigView) -> bool {
    valid_sample_rate(v.sample_rate_hz) ==> {
        &&& v.number_samples + sample_offset_spec(v.sample_rate_hz) <= u32::MAX
        &&& encoded_len_spec(sorted_view(v)) <= u32::MAX
    }
}

/// Unfolds one step of a peak list's byte form.
pub proof fn lemma_peaks_bytes_step(ps: Seq<FrequencyPeak>, i: int, last: u32)
    requires
        0 <= i < ps.len(),
    ensures
        peaks_bytes(ps.skip(i), last) == peak_bytes(last, ps[i]) + peaks_bytes(
            ps.skip(i + 1),
            ps[i].fft_pass_number,
        ),
{
    assert(ps.skip(i).skip(1) =~= ps.skip(i + 1));
    assert(ps.skip(i)[0] == ps[i]);
}

/// A peak list's byte form is empty exactly when the list is.
pub proof fn lemma_peaks_bytes_empty_iff(ps: Seq<FrequencyPeak>, last: u32)
    ensures
        (peaks_bytes(ps, last).len() == 0) <==> (ps.len() == 0),
{
    if ps.len() != 0 {
        assert(peak_bytes(last, ps[0]).len() >= 5);
    }
}

/// The block list of bands `k` to 3 splits off band `k`'s block.
pub proof fn lemma_blocks_from_unfold(bands: Seq<Seq<FrequencyPeak>>, k: int)
    requires
        0 <= k < 4,
    ensures
        blocks_from(bands, k) == band_block(k, bands[k]) + blocks_from(bands, k + 1),
        blocks_from(bands, k).len() == band_block(k, bands[k]).len() + blocks_from(
            bands,
            k + 1,
        ).len(),
{
}

/// Later suffixes of the block list are no longer than earlier ones.
pub proof fn lemma_blocks_suffix_le(bands: Seq<Seq<FrequencyPeak>>, j: int, k: int)
    requires
        0 <= j <= k <= 4,
    ensures
        blocks_from(bands, k).len() <= blocks_from(bands, j).len(),
    decreases k - j,
{
    if j < k {
        lemma_blocks_from_unfold(bands, j);
        lemma_blocks_suffix_le(bands, j + 1, k);
    }
}

/// Appends the delta-encoded byte form of a sorted peak list.
fn append_peaks_bytes(out: &mut Vec<u8>, ps: &Vec<FrequencyPeak>)
    requires
        passes_sorted(ps@),
    ensures
        final(out)@ == old(out)@ + peaks_bytes(ps@, 0),
{
    let n = ps.len();
    let mut last: u32 = 0;
    proof {
        assert(ps@.skip(0) =~= ps@);
    }
    for i in 0..n
        invariant
            n == ps@.len(),
            passes_sorted(ps@),
            i == 0 ==> last == 0,
            i > 0 ==> last == ps@[i - 1].fft_pass_number,
            out@ + peaks_bytes(ps@.skip(i as int), last) == old(out)@ + peaks_bytes(ps@, 0),
    {
        let p = ps[i];
        proof {
            lemma_peaks_bytes_step(ps@, i as int, last);
        }
        let ghost before = out@;
        if p.fft_pass_number - last >= 255 {
            out.push(0xff);
            push_u32_le(out, p.fft_pass_number);
            out.push(0);
            push_u16_le(out, p.peak_magnitude);
            push_u16_le(out, p.corrected_peak_frequency_bin);
            proof {
                assert(out@ =~= before + peak_bytes(last, p));
            }
        } else {
            out.push((p.fft_pass_number - last) as u8);
            push_u16_le(out, p.peak_magnitude);
            push_u16_le(out, p.corrected_peak_frequency_bin);
            proof {
                assert(out@ =~= before + peak_bytes(last, p));
            }
        }
        proof {
            assert((before + peak_bytes(last, p)) + peaks_bytes(
                ps@.skip(i + 1),
                p.fft_pass_number,
            ) =~= before + (peak_bytes(last, p) + peaks_bytes(ps@.skip(i + 1), p.fft_pass_number)));
        }
        last = p.fft_pass_number;
    }
    proof {
        assert(ps@.skip(n as int) =~= Seq::<FrequencyPeak>::empty());
        assert(out@ + peaks_bytes(ps@.skip(n as int), last) =~= out@);
    }
}

/// The band with ordinal `k`.
pub fn band_with_ordinal(k: usize) -> (b: FrequencyBand)
    requires
        k < 4,
    ensures
        band_ordinal_spec(b) == k,
        b == band_of_ordinal(k as int),
{
    match k {
        0 => FrequencyBand::_250_520,
        1 => FrequencyBand::_520_1450,
        2 => FrequencyBand::_1450_3500,
        _ => FrequencyBand::_3500_5500,
    }
}

impl DecodedSignature {
    /// Serializes the signature into its binary wire form.
    ///
    /// Every band is first sorted by pass number (stably; a band already
    /// in order is kept as it is), as the delta scheme requires. Fails
    /// exactly when the sample rate is not one of the six known ones.
    pub fn encode_to_binary(&self) -> (r: Result<Vec<u8>, SignatureError>)
        requires
            self.wf(),
            encodable(self@),
        ensures
            valid_sample_rate(self@.sample_rate_hz) ==> (r matches Ok(b) && b@ == encode_spec(
                sorted_view(self@),
            )),
            !valid_sample_rate(self@.sample_rate_hz) ==> (r matches Err(e) && e
                == SignatureError::InvalidSampleRate),
    {
        let rate_id = sample_rate_id(self.sample_rate_hz);
        if rate_id == 0 {
            return Err(SignatureError::InvalidSampleRate);
        }
        let ghost sv = sorted_view(self@);
        let ghost blocks = blocks_from(sv.bands, 0);

        // Per-band delta-encoded peak lists, in ordinal order.
        let mut bodies: Vec<Vec<u8>> = Vec::new();
        for k in 0..4usize
            invariant
                self.wf(),
                bodies@.len() == k,
                forall|t: int|
                    0 <= t < k ==> #[trigger] bodies@[t]@ == peaks_bytes(
                        sort_peaks(self@.bands[t]),
                        0,
                    ),
        {
            let band = band_with_ordinal(k);
            let sorted = sort_peak_vec(self.peaks_in_band(band));
            let mut body: Vec<u8> = Vec::new();
            append_peaks_bytes(&mut body, &sorted);
            bodies.push(body);
        }
        proof {
            assert(forall|t: int| 0 <= t < 4 ==> sv.bands[t] == sort_peaks(self@.bands[t]));
        }

        // Total length of the band blocks, each 8 bytes of id and length
        // plus the padded list.
        let mut total: usize = 0;
        for k in 0..4usize
            invariant
                bodies@.len() == 4,
                forall|t: int|
                    0 <= t < 4 ==> #[trigger] bodies@[t]@ == peaks_bytes(
                        sort_peaks(self@.bands[t]),
                        0,
                    ),
                sv == sorted_view(self@),
                blocks == blocks_from(sv.bands, 0),
                blocks.len() + 56 <= u32::MAX,
                total == blocks.len() - blocks_from(sv.bands, k as int).len(),
        {
            proof {
                lemma_blocks_from_unfold(sv.bands, k as int);
                lemma_peaks_bytes_empty_iff(sv.bands[k as int], 0);
            }
            let blen = bodies[k].len();
            if blen > 0 {
                let pad = (4 - blen % 4) % 4;
                proof {
                    assert(band_block(k as int, sv.bands[k as int]).len() == 8 + blen + pad4(
                        blen as int,
                    ));
                    lemma_blocks_suffix_le(sv.bands, 0, k + 1 as int);
                }
                total = total + 8 + blen + pad;
            } else {
                proof {
                    assert(band_block(k as int, sv.bands[k as int]).len() == 0);
                }
            }
        }
        proof {
            assert(blocks_from(sv.bands, 4).len() == 0);
            assert(total == blocks.len());
        }

        let size_minus_header: u32 = (total + 8) as u32;
        let offset = sample_offset(self.sample_rate_hz);
        let samples_plus_offset: u32 = self.number_samples + offset;

        // The checksummed tail: the header from its size field on, the
        // fixed size record, then the band blocks.
        let mut tail: Vec<u8> = Vec::new();
        push_u32_le(&mut tail, size_minus_header);
        push_u32_le(&mut tail, HEADER_MAGIC2);
        push_u32_le(&mut tail, 0);
        push_u32_le(&mut tail, 0);
        push_u32_le(&mut tail, 0);
        push_u32_le(&mut tail, rate_id * SAMPLE_RATE_SHIFT);
        push_u32_le(&mut tail, 0);
        push_u32_le(&mut tail, 0);
        push_u32_le(&mut tail, samples_plus_offset);
        push_u32_le(&mut tail, HEADER_FIXED_VALUE);
        push_u32_le(&mut tail, SIZE_RECORD_TYPE);
        push_u32_le(&mut tail, size_minus_header);
        let ghost header_part = tail@;

        for k in 0..4usize
            invariant
                bodies@.len() == 4,
                forall|t: int|
                    0 <= t < 4 ==> #[trigger] bodies@[t]@ == peaks_bytes(
                        sort_peaks(self@.bands[t]),
                        0,
                    ),
                sv == sorted_view(self@),
                blocks == blocks_from(sv.bands, 0),
                tail@ + blocks_from(sv.bands, k as int) == header_part + blocks,
        {
            proof {
                lemma_blocks_from_unfold(sv.bands, k as int);
                lemma_peaks_bytes_empty_iff(sv.bands[k as int], 0);
            }
            let ghost tail_before = tail@;
            let blen = bodies[k].len();
            if blen > 0 {
                proof {
                    lemma_blocks_suffix_le(sv.bands, 0, k as int);
                    assert(blen <= band_block(k as int, sv.bands[k as int]).len());
                    assert(band_block(k as int, sv.bands[k as int]).len() <= blocks.len());
                }
                push_u32_le(&mut tail, BAND_ID_BASE + k as u32);
                push_u32_le(&mut tail, blen as u32);
                let body = &bodies[k];
                for j in 0..blen
                    invariant
                        blen == body@.len(),
                        tail@ == tail_before + le32((BAND_ID_BASE + k as int) as u32) + le32(
                            blen as u32,
                        ) + body@.take(j as int),
                {
                    let byte = body[j];
                    tail.push(byte);
                    proof {
                        assert(body@.take(j + 1) =~= body@.take(j as int).push(body@[j as int]));
                        assert(tail@ =~= tail_before + le32((BAND_ID_BASE + k as int) as u32)
                            + le32(blen as u32) + body@.take(j + 1));
                    }
                }
                let pad = (4 - blen % 4) % 4;
                let ghost tail_mid = tail@;
                for j in 0..pad
                    invariant
                        tail@ == tail_mid + zeros(j as int),
                {
                    tail.push(0);
                    proof {
                        assert(tail@ =~= tail_mid + zeros(j + 1));
                    }
                }
                proof {
                    assert(body@.take(blen as int) =~= body@);
                    assert(pad == pad4(blen as int));
                    assert(tail@ =~= tail_before + band_block(k as int, sv.bands[k as int]));
                    assert(tail@ + blocks_from(sv.bands, k + 1 as int) =~= tail_before + (
                    band_block(k as int, sv.bands[k as int]) + blocks_from(sv.bands, k + 1 as int)));
                }
            } else {
                proof {
                    assert(band_block(k as int, sv.bands[k as int]).len() == 0);
                    assert(tail@ + blocks_from(sv.bands, k + 1 as int) =~= tail_before + (
                    band_block(k as int, sv.bands[k as int]) + blocks_from(sv.bands, k + 1 as int)));
                }
            }
        }
        proof {
            assert(tail@ + blocks_from(sv.bands, 4) =~= tail@);
            assert(tail@ =~= header_part + blocks);
            assert(size_minus_header == (blocks.len() + 8) as u32);
            assert(sv.sample_rate_hz == self@.sample_rate_hz);
            assert(sv.number_samples == self@.number_samples);
            assert(tail@ =~= encoded_tail(sv));
        }

        // The leading magic word and the checksum over the tail.
        let mut out: Vec<u8> = Vec::new();
        push_u32_le(&mut out, HEADER_MAGIC1);
        proof {
            assert(tail@.skip(0) =~= tail@);
        }
        let crc = crc32_from(tail.as_slice(), 0);
        push_u32_le(&mut out, crc);
        let ghost out_head = out@;
        let tlen = tail.len();
        for j in 0..tlen
            invariant
                tlen == tail@.len(),
                out@ == out_head + tail@.take(j as int),
        {
            let byte = tail[j];
            out.push(byte);
            proof {
                assert(tail@.take(j + 1) =~= tail@.take(j as int).push(tail@[j as int]));
                assert(out@ =~= out_head + tail@.take(j + 1));
            }
        }
        proof {
            assert(tail@.take(tlen as int) =~= tail@);
            assert(out@ =~= le32(HEADER_MAGIC1) + le32(crc32_of(encoded_tail(sv))) + encoded_tail(
                sv,
            ));
        }
        Ok(out)
    }
}

/// Parses the peak list stored at `data[base .. base + size]`, appending
/// the decoded peaks to `peaks`, which plays the accumulator of
/// `parse_peaks_spec`.
fn parse_band_peaks(data: &[u8], base: usize, size: usize, peaks: &mut Vec<FrequencyPeak>) -> (r:
    Result<(), SignatureError>)
    requires
        base + size <= data@.len(),
        data@.len() <= usize::MAX,
    ensures
        ({
            let pp = parse_peaks_spec(
                data@.subrange(base as int, base + size),
                0,
                old(peaks)@,
            );
            match r {
                Ok(_) => pp == Ok::<Seq<FrequencyPeak>, SignatureError>(final(peaks)@),
                Err(e) => pp == Err::<Seq<FrequencyPeak>, SignatureError>(e),
            }
        }),
{
    let ghost body = data@.subrange(base as int, base + size);
    let ghost pp0 = parse_peaks_spec(body, 0, old(peaks)@);
    let end = base + size;
    let mut q = base;
    let mut last: u32 = 0;
    proof {
        assert(body.skip(0) =~= body);
    }
    while q < end
        invariant
            base + size <= data@.len(),
            end == base + size,
            base <= q <= end,
            body == data@.subrange(base as int, base + size),
            pp0 == parse_peaks_spec(body, 0, old(peaks)@),
            pp0 == parse_peaks_spec(body.skip(q - base), last, peaks@),
        decreases end - q,
    {
        let ghost prem = body.skip(q - base);
        proof {
            assert(prem[0] == data@[q as int]);
        }
        if end - q < 5 {
            return Err(SignatureError::Truncated);
        }
        proof {
            assert(prem[1] == data@[q + 1]);
            assert(prem[2] == data@[q + 2]);
            assert(prem[3] == data@[q + 3]);
            assert(prem[4] == data@[q + 4]);
            assert(prem.skip(5) =~= body.skip(q + 5 - base));
        }
        let b0 = data[q];
        if b0 == 0xff {
            let absolute = read_u32_le(data, q + 1);
            proof {
                assert(absolute == le32_at(prem, 1));
            }
            last = absolute;
        } else {
            if last > u32::MAX - b0 as u32 {
                return Err(SignatureError::PassNumberOverflow);
            }
            last = last + b0 as u32;
            let peak = FrequencyPeak {
                fft_pass_number: last,
                peak_magnitude: read_u16_le(data, q + 1),
                corrected_peak_frequency_bin: read_u16_le(data, q + 3),
            };
            proof {
                assert(peak.peak_magnitude == le16_at(prem, 1));
                assert(peak.corrected_peak_frequency_bin == le16_at(prem, 3));
            }
            peaks.push(peak);
        }
        q = q + 5;
    }
    proof {
        assert(body.skip(q - base) =~= Seq::<u8>::empty());
    }
    Ok(())
}

/// Parses every band block after the fixed size record, filling `bands`
/// (four lists, all empty on entry).
fn parse_bands(data: &[u8]) -> (r: Result<Vec<Vec<FrequencyPeak>>, SignatureError>)
    requires
        data@.len() >= 56,
    ensures
        ({
            let pb = parse_blocks_spec(data@.skip(56), empty_bands());
            match r {
                Ok(b) => b@.len() == 4 && pb == Ok::<Seq<Seq<FrequencyPeak>>, SignatureError>(
                    bands_seq(b),
                ),
                Err(e) => pb == Err::<Seq<Seq<FrequencyPeak>>, SignatureError>(e),
            }
        }),
{
    let n = data.len();
    let mut bands: Vec<Vec<FrequencyPeak>> = Vec::new();
    bands.push(Vec::new());
    bands.push(Vec::new());
    bands.push(Vec::new());
    bands.push(Vec::new());
    proof {
        assert(bands_seq(bands) =~= empty_bands());
    }
    let ghost whole = parse_blocks_spec(data@.skip(56), empty_bands());
    let mut pos: usize = 56;
    while pos < n
        invariant
            n == data@.len(),
            n >= 56,
            56 <= pos,
            bands@.len() == 4,
            whole == parse_blocks_spec(data@.skip(56), empty_bands()),
            pos <= n ==> whole == parse_blocks_spec(data@.skip(pos as int), bands_seq(bands)),
            pos > n ==> whole == Ok::<Seq<Seq<FrequencyPeak>>, SignatureError>(bands_seq(bands)),
        decreases n - pos,
    {
        let ghost rem = data@.skip(pos as int);
        let ghost bands0 = bands_seq(bands);
        if n - pos < 8 {
            return Err(SignatureError::Truncated);
        }
        let id_word = read_u32_le(data, pos);
        proof {
            assert(rem[0] == data@[pos as int]);
            assert(rem[1] == data@[pos + 1]);
            assert(rem[2] == data@[pos + 2]);
            assert(rem[3] == data@[pos + 3]);
            assert(rem[4] == data@[pos + 4]);
            assert(rem[5] == data@[pos + 5]);
            assert(rem[6] == data@[pos + 6]);
            assert(rem[7] == data@[pos + 7]);
            assert(id_word == le32_at(rem, 0));
        }
        if id_word < BAND_ID_BASE || id_word > BAND_ID_BASE + 3 {
            return Err(SignatureError::BadBandId);
        }
        let k = (id_word - BAND_ID_BASE) as usize;
        let size = read_u32_le(data, pos + 4) as usize;
        proof {
            assert(size == le32_at(rem, 4) as int);
        }
        if size > n - pos - 8 {
            return Err(SignatureError::Truncated);
        }
        let base = pos + 8;
        let ghost body = data@.subrange(base as int, base + size);
        proof {
            assert(body =~= rem.subrange(8, 8 + size));
            assert(bands0[k as int] == bands@[k as int]@);
        }
        let ghost bands_before = bands@;
        let inner = parse_band_peaks(data, base, size, &mut bands[k]);
        match inner {
            Err(e) => {
                proof {
                    assert(parse_blocks_spec(rem, bands0) == Err::<
                        Seq<Seq<FrequencyPeak>>,
                        SignatureError,
                    >(e));
                }
                return Err(e);
            },
            Ok(_) => {},
        }
        proof {
            assert(bands_seq(bands) =~= bands0.update(k as int, bands@[k as int]@));
        }
        let pad = (4 - size % 4) % 4;
        proof {
            assert(pad == pad4(size as int));
            assert(parse_blocks_spec(rem, bands0) == (if 8 + size + pad >= rem.len() {
                Ok::<Seq<Seq<FrequencyPeak>>, SignatureError>(bands_seq(bands))
            } else {
                parse_blocks_spec(rem.skip(8 + size + pad), bands_seq(bands))
            }));
        }
        let pos_next = pos + 8 + size;
        if pad >= n - pos_next {
            pos = n;
            proof {
                assert(data@.skip(n as int) =~= Seq::<u8>::empty());
            }
        } else {
            proof {
                assert(rem.skip(8 + size + pad) =~= data@.skip(pos_next + pad));
            }
            pos = pos_next + pad;
        }
    }
    proof {
        if pos == n {
            assert(data@.skip(pos as int) =~= Seq::<u8>::empty());
        }
    }
    Ok(bands)
}

impl DecodedSignature {
    /// Parses a binary signature.
    ///
    /// Returns the decoded signature exactly when `decode_spec` accepts
    /// the bytes, and the same structured error otherwise; within each
    /// band, peaks keep the order the file gives them.
    pub fn decode_from_binary(data: &[u8]) -> (r: Result<DecodedSignature, SignatureError>)
        ensures
            r matches Ok(s) ==> s.wf() && decode_spec(data@) == Ok::<SigView, SignatureError>(s@),
            r matches Err(e) ==> decode_spec(data@) == Err::<SigView, SignatureError>(e),
    {
        let n = data.len();
        if n < 56 {
            return Err(SignatureError::TooShort);
        }
        if read_u32_le(data, 0) != HEADER_MAGIC1 {
            return Err(SignatureError::BadMagic1);
        }
        let crc = crc32_from(data, 8);
        if read_u32_le(data, 4) != crc {
            return Err(SignatureError::BadChecksum);
        }
        if read_u32_le(data, 8) as usize != n - 48 {
            return Err(SignatureError::BadSize);
        }
        if read_u32_le(data, 12) != HEADER_MAGIC2 {
            return Err(SignatureError::BadMagic2);
        }
        let rate = sample_rate_from_id(read_u32_le(data, 28) / SAMPLE_RATE_SHIFT);
        if rate == 0 {
            return Err(SignatureError::InvalidSampleRate);
        }
        let offset = sample_offset(rate);
        let samples_plus_offset = read_u32_le(data, 40);
        if samples_plus_offset < offset {
            return Err(SignatureError::BadSampleCount);
        }
        let number_samples = samples_plus_offset - offset;
        if read_u32_le(data, 48) != SIZE_RECORD_TYPE || read_u32_le(data, 52) as usize != n - 48 {
            return Err(SignatureError::BadSizeRecord);
        }
        let bands = match parse_bands(data) {
            Ok(bands) => bands,
            Err(e) => {
                return Err(e);
            },
        };
        let s = DecodedSignature {
            sample_rate_hz: rate,
            number_samples,
            frequency_band_to_sound_peaks: bands,
        };
        proof {
            assert(s@.bands =~= bands_seq(s.frequency_band_to_sound_peaks));
            assert(decode_spec(data@) == Ok::<SigView, SignatureError>(s@));
        }
        Ok(s)
    }
}

} // verus!
