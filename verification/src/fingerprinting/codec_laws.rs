//! Laws of the signature codec: decoding inverts encoding, truncated
//! buffers are rejected, and re-encoding a decoded signature reproduces
//! the bytes.

use vstd::prelude::*;

use crate::fingerprinting::checksum::crc32_of;
use crate::fingerprinting::peak_sort::{lemma_sort_peaks_of_sorted, sorted_view};
use crate::fingerprinting::signature_format::{
    band_block, blocks_from, decode_spec, empty_bands, encode_spec, encoded_len_spec,
    encoded_tail, lemma_blocks_from_unfold, lemma_blocks_suffix_le, lemma_peaks_bytes_empty_iff,
    pad4, parse_blocks_spec, parse_peaks_spec, passes_sorted, peak_bytes, peaks_bytes,
    sample_offset_spec, sample_rate_from_id_spec, sample_rate_id_spec, valid_sample_rate,
    view_wf, zeros, FrequencyPeak, SigView, SignatureError, BAND_ID_BASE, HEADER_FIXED_VALUE,
    HEADER_MAGIC1, HEADER_MAGIC2, SAMPLE_RATE_SHIFT, SIZE_RECORD_TYPE,
};
use crate::fingerprinting::wire::{
    le16, le16_at, le32, le32_at, lemma_le16_at_concat, lemma_le32_at_concat,
};

verus! {

/// A signature whose bands are already sorted is its own sorted view.
pub proof fn lemma_sorted_view_of_sorted(v: SigView)
    requires
        view_wf(v),
        forall|i: int| 0 <= i < 4 ==> passes_sorted(#[trigger] v.bands[i]),
    ensures
        sorted_view(v) == v,
{
    assert forall|i: int| 0 <= i < 4 implies sorted_view(v).bands[i] == v.bands[i] by {
        lemma_sort_peaks_of_sorted(v.bands[i]);
    }
    assert(sorted_view(v).bands =~= v.bands);
}

/// Parsing the delta-encoded bytes of a sorted peak list appends exactly
/// those peaks to the accumulator.
#[verifier::rlimit(60)]
proof fn lemma_parse_peaks_of_encoded(ps: Seq<FrequencyPeak>, last: u32, acc: Seq<FrequencyPeak>)
    requires
        passes_sorted(ps),
        ps.len() > 0 ==> last <= ps[0].fft_pass_number,
    ensures
        parse_peaks_spec(peaks_bytes(ps, last), last, acc) == Ok::<
            Seq<FrequencyPeak>,
            SignatureError,
        >(acc + ps),
    decreases ps.len(),
{
    if ps.len() == 0 {
        assert(acc + ps =~= acc);
    } else {
        let p = ps[0];
        let rest = peaks_bytes(ps.skip(1), p.fft_pass_number);
        let tail16 = le16(p.peak_magnitude) + le16(p.corrected_peak_frequency_bin);
        let d = peaks_bytes(ps, last);
        assert(passes_sorted(ps.skip(1)));
        assert(ps.skip(1).len() > 0 ==> p.fft_pass_number <= ps.skip(1)[0].fft_pass_number);
        if p.fft_pass_number >= last + 255 {
            // An escape record: 0xff, the absolute pass number, then a
            // zero delta and the two 16-bit fields.
            assert(d =~= seq![0xffu8] + le32(p.fft_pass_number) + seq![0u8] + tail16 + rest);
            assert(d[0] == 0xff);
            lemma_le32_at_concat(
                seq![0xffu8],
                p.fft_pass_number,
                seq![0u8] + tail16 + rest,
            );
            assert(le32_at(d, 1) == p.fft_pass_number);
            let d2 = d.skip(5);
            assert(d2 =~= seq![0u8] + tail16 + rest);
            assert(d2[0] == 0u8);
            lemma_le16_at_concat(seq![0u8], p.peak_magnitude, le16(
                p.corrected_peak_frequency_bin,
            ) + rest);
            assert(le16_at(d2, 1) == p.peak_magnitude);
            lemma_le16_at_concat(
                seq![0u8] + le16(p.peak_magnitude),
                p.corrected_peak_frequency_bin,
                rest,
            );
            assert(le16_at(d2, 3) == p.corrected_peak_frequency_bin);
            assert(d2.skip(5) =~= rest);
            assert(parse_peaks_spec(d, last, acc) == parse_peaks_spec(d2, p.fft_pass_number, acc));
            assert(parse_peaks_spec(d2, p.fft_pass_number, acc) == parse_peaks_spec(
                rest,
                p.fft_pass_number,
                acc.push(p),
            ));
            lemma_parse_peaks_of_encoded(ps.skip(1), p.fft_pass_number, acc.push(p));
            assert(acc.push(p) + ps.skip(1) =~= acc + ps);
        } else {
            let delta = (p.fft_pass_number - last) as u8;
            assert(d =~= seq![delta] + tail16 + rest);
            assert(d[0] == delta && delta != 0xffu8);
            lemma_le16_at_concat(seq![delta], p.peak_magnitude, le16(
                p.corrected_peak_frequency_bin,
            ) + rest);
            assert(le16_at(d, 1) == p.peak_magnitude);
            lemma_le16_at_concat(
                seq![delta] + le16(p.peak_magnitude),
                p.corrected_peak_frequency_bin,
                rest,
            );
            assert(le16_at(d, 3) == p.corrected_peak_frequency_bin);
            assert(d.skip(5) =~= rest);
            assert(last + delta == p.fft_pass_number);
            assert(parse_peaks_spec(d, last, acc) == parse_peaks_spec(
                rest,
                p.fft_pass_number,
                acc.push(p),
            ));
            lemma_parse_peaks_of_encoded(ps.skip(1), p.fft_pass_number, acc.push(p));
            assert(acc.push(p) + ps.skip(1) =~= acc + ps);
        }
    }
}

/// Parsing one encoded band block appends its peaks to the right band
/// and continues with whatever follows the block.
#[verifier::rlimit(100)]
proof fn lemma_parse_block_step(
    k: int,
    bk: Seq<FrequencyPeak>,
    restb: Seq<u8>,
    cur: Seq<Seq<FrequencyPeak>>,
)
    requires
        0 <= k < 4,
        cur.len() == 4,
        cur[k].len() == 0,
        passes_sorted(bk),
        bk.len() > 0,
        peaks_bytes(bk, 0).len() <= u32::MAX,
    ensures
        parse_blocks_spec(band_block(k, bk) + restb, cur) == (if restb.len() == 0 {
            Ok::<Seq<Seq<FrequencyPeak>>, SignatureError>(cur.update(k, bk))
        } else {
            parse_blocks_spec(restb, cur.update(k, bk))
        }),
{
    let body = peaks_bytes(bk, 0);
    let pad = pad4(body.len() as int);
    let idw = (BAND_ID_BASE + k) as u32;
    let szw = body.len() as u32;
    let rem = band_block(k, bk) + restb;
    lemma_peaks_bytes_empty_iff(bk, 0);
    assert(rem =~= le32(idw) + le32(szw) + body + zeros(pad) + restb);
    lemma_le32_at_concat(Seq::<u8>::empty(), idw, le32(szw) + body + zeros(pad) + restb);
    assert(Seq::<u8>::empty() + le32(idw) + (le32(szw) + body + zeros(pad) + restb) =~= rem);
    assert(le32_at(rem, 0) == idw);
    lemma_le32_at_concat(le32(idw), szw, body + zeros(pad) + restb);
    assert(le32(idw) + le32(szw) + (body + zeros(pad) + restb) =~= rem);
    assert(le32_at(rem, 4) == szw);
    assert(BAND_ID_BASE <= idw <= BAND_ID_BASE + 3);
    assert(idw - BAND_ID_BASE == k);
    assert(szw as int == body.len());
    assert(szw as int <= rem.len() - 8);
    assert(rem.subrange(8, 8 + body.len() as int) =~= body);
    lemma_parse_peaks_of_encoded(bk, 0, cur[k]);
    assert(cur[k] + bk =~= bk);
    assert(cur.update(k, cur[k] + bk) =~= cur.update(k, bk));
    assert(pad4(szw as int) == pad);
    let consumed = 8 + body.len() + pad;
    if restb.len() == 0 {
        assert(consumed >= rem.len());
    } else {
        assert(consumed < rem.len());
        assert(rem.skip(consumed as int) =~= restb);
    }
}

/// Parsing the encoded blocks of bands `k` to 3 into an accumulator
/// whose bands `k` to 3 are empty yields those bands exactly.
#[verifier::rlimit(100)]
proof fn lemma_parse_blocks_of_encoded(
    bands: Seq<Seq<FrequencyPeak>>,
    cur: Seq<Seq<FrequencyPeak>>,
    k: int,
)
    requires
        bands.len() == 4,
        cur.len() == 4,
        0 <= k <= 4,
        forall|i: int| k <= i < 4 ==> #[trigger] cur[i].len() == 0,
        forall|i: int| 0 <= i < 4 ==> passes_sorted(#[trigger] bands[i]),
        blocks_from(bands, 0).len() <= u32::MAX,
    ensures
        parse_blocks_spec(blocks_from(bands, k), cur) == Ok::<
            Seq<Seq<FrequencyPeak>>,
            SignatureError,
        >(
            Seq::new(
                4,
                |i: int|
                    if i >= k {
                        bands[i]
                    } else {
                        cur[i]
                    },
            ),
        ),
    decreases 4 - k,
{
    let merge = Seq::new(
        4,
        |i: int|
            if i >= k {
                bands[i]
            } else {
                cur[i]
            },
    );
    if k == 4 {
        assert(blocks_from(bands, 4).len() == 0);
        assert(merge =~= cur);
    } else {
        lemma_blocks_from_unfold(bands, k);
        let rem = blocks_from(bands, k);
        let bk = bands[k];
        let restb = blocks_from(bands, k + 1);
        if bk.len() == 0 {
            assert(rem =~= restb);
            lemma_parse_blocks_of_encoded(bands, cur, k + 1);
            assert(bands[k] =~= cur[k]);
            assert(merge =~= Seq::new(
                4,
                |i: int|
                    if i >= k + 1 {
                        bands[i]
                    } else {
                        cur[i]
                    },
            ));
        } else {
            lemma_blocks_suffix_le(bands, 0, k);
            assert(peaks_bytes(bk, 0).len() <= u32::MAX);
            lemma_parse_block_step(k, bk, restb, cur);
            let bands2 = cur.update(k, bk);
            if restb.len() == 0 {
                assert(parse_blocks_spec(rem, cur) == Ok::<
                    Seq<Seq<FrequencyPeak>>,
                    SignatureError,
                >(bands2));
                assert forall|i: int| 0 <= i < 4 implies merge[i] == bands2[i] by {
                    if i > k {
                        lemma_blocks_suffix_le(bands, k + 1, i);
                        lemma_blocks_from_unfold(bands, i);
                        lemma_peaks_bytes_empty_iff(bands[i], 0);
                        assert(bands[i].len() == 0);
                        assert(bands[i] =~= cur[i]);
                    }
                }
                assert(merge =~= bands2);
            } else {
                lemma_parse_blocks_of_encoded(bands, bands2, k + 1);
                let merge2 = Seq::new(
                    4,
                    |i: int|
                        if i >= k + 1 {
                            bands[i]
                        } else {
                            bands2[i]
                        },
                );
                assert(parse_blocks_spec(rem, cur) == parse_blocks_spec(restb, bands2));
                assert(merge =~= merge2);
            }
        }
    }
}

/// Round-trip: decoding an encoded signature gives back exactly the
/// same rate, sample count and per-band peak sequences, for any
/// signature whose bands are sorted by pass number and whose encoding
/// fits the format's 32-bit fields.
#[verifier::rlimit(80)]
pub proof fn lemma_encode_decode_roundtrip(v: SigView)
    requires
        view_wf(v),
        valid_sample_rate(v.sample_rate_hz),
        forall|i: int| 0 <= i < 4 ==> passes_sorted(#[trigger] v.bands[i]),
        v.number_samples + sample_offset_spec(v.sample_rate_hz) <= u32::MAX,
        encoded_len_spec(v) <= u32::MAX,
    ensures
        decode_spec(encode_spec(v)) == Ok::<SigView, SignatureError>(v),
{
    let blocks = blocks_from(v.bands, 0);
    let size = (blocks.len() + 8) as u32;
    let tail = encoded_tail(v);
    let d = encode_spec(v);
    let rate = v.sample_rate_hz;
    let id = sample_rate_id_spec(rate);
    let off = sample_offset_spec(rate);
    let spo = (v.number_samples + off) as u32;
    let shifted = (id * SAMPLE_RATE_SHIFT) as u32;
    let crc = crc32_of(tail);

    assert(d =~= le32(HEADER_MAGIC1) + le32(crc) + le32(size) + le32(HEADER_MAGIC2) + zeros(12)
        + le32(shifted) + zeros(8) + le32(spo) + le32(HEADER_FIXED_VALUE) + le32(SIZE_RECORD_TYPE)
        + le32(size) + blocks);
    assert(d.len() == 56 + blocks.len());

    lemma_le32_at_concat(Seq::<u8>::empty(), HEADER_MAGIC1, d.skip(4));
    assert(Seq::<u8>::empty() + le32(HEADER_MAGIC1) + d.skip(4) =~= d);
    assert(le32_at(d, 0) == HEADER_MAGIC1);

    lemma_le32_at_concat(le32(HEADER_MAGIC1), crc, tail);
    assert(le32(HEADER_MAGIC1) + le32(crc) + tail =~= d);
    assert(le32_at(d, 4) == crc);
    assert(d.skip(8) =~= tail);

    let pre8 = le32(HEADER_MAGIC1) + le32(crc);
    lemma_le32_at_concat(pre8, size, d.skip(12));
    assert(pre8 + le32(size) + d.skip(12) =~= d);
    assert(le32_at(d, 8) == size);
    assert(size as int == d.len() - 48);

    let pre12 = pre8 + le32(size);
    lemma_le32_at_concat(pre12, HEADER_MAGIC2, d.skip(16));
    assert(pre12 + le32(HEADER_MAGIC2) + d.skip(16) =~= d);
    assert(le32_at(d, 12) == HEADER_MAGIC2);

    let pre28 = pre12 + le32(HEADER_MAGIC2) + zeros(12);
    lemma_le32_at_concat(pre28, shifted, d.skip(32));
    assert(pre28 + le32(shifted) + d.skip(32) =~= d);
    assert(le32_at(d, 28) == shifted);

    if rate == 8000 {
        assert(shifted / SAMPLE_RATE_SHIFT == 1);
    } else if rate == 11025 {
        assert(shifted / SAMPLE_RATE_SHIFT == 2);
    } else if rate == 16000 {
        assert(shifted / SAMPLE_RATE_SHIFT == 3);
    } else if rate == 32000 {
        assert(shifted / SAMPLE_RATE_SHIFT == 4);
    } else if rate == 44100 {
        assert(shifted / SAMPLE_RATE_SHIFT == 5);
    } else {
        assert(shifted / SAMPLE_RATE_SHIFT == 6);
    }
    assert(sample_rate_from_id_spec(le32_at(d, 28) / SAMPLE_RATE_SHIFT) == rate);

    let pre40 = pre28 + le32(shifted) + zeros(8);
    lemma_le32_at_concat(pre40, spo, d.skip(44));
    assert(pre40 + le32(spo) + d.skip(44) =~= d);
    assert(le32_at(d, 40) == spo);
    assert(spo >= off);
    assert((le32_at(d, 40) - off) as u32 == v.number_samples);

    let pre48 = pre40 + le32(spo) + le32(HEADER_FIXED_VALUE);
    lemma_le32_at_concat(pre48, SIZE_RECORD_TYPE, d.skip(52));
    assert(pre48 + le32(SIZE_RECORD_TYPE) + d.skip(52) =~= d);
    assert(le32_at(d, 48) == SIZE_RECORD_TYPE);

    let pre52 = pre48 + le32(SIZE_RECORD_TYPE);
    lemma_le32_at_concat(pre52, size, blocks);
    assert(pre52 + le32(size) + blocks =~= d);
    assert(le32_at(d, 52) == size);

    assert(d.skip(56) =~= blocks);
    lemma_parse_blocks_of_encoded(v.bands, empty_bands(), 0);
    let merged = Seq::new(
        4,
        |i: int|
            if i >= 0 {
                v.bands[i]
            } else {
                empty_bands()[i]
            },
    );
    assert(merged =~= v.bands);
    assert(parse_blocks_spec(d.skip(56), empty_bands()) == Ok::<
        Seq<Seq<FrequencyPeak>>,
        SignatureError,
    >(v.bands));
    assert(decode_spec(d) == Ok::<SigView, SignatureError>(
        SigView {
            sample_rate_hz: rate,
            number_samples: v.number_samples,
            bands: v.bands,
        },
    ));
    assert(SigView { sample_rate_hz: rate, number_samples: v.number_samples, bands: v.bands }
        == v);
}

/// Truncating a valid encoded buffer by any nonzero amount makes the
/// decode fail: either a length or checksum check trips, or the size
/// field no longer matches the shortened buffer.
#[verifier::rlimit(100)]
pub proof fn lemma_truncated_decode_fails(v: SigView, m: int)
    requires
        view_wf(v),
        valid_sample_rate(v.sample_rate_hz),
        forall|i: int| 0 <= i < 4 ==> passes_sorted(#[trigger] v.bands[i]),
        v.number_samples + sample_offset_spec(v.sample_rate_hz) <= u32::MAX,
        encoded_len_spec(v) <= u32::MAX,
        0 <= m < encode_spec(v).len(),
    ensures
        decode_spec(encode_spec(v).take(m)) is Err,
{
    let d = encode_spec(v);
    let t = d.take(m);
    if m >= 56 {
        let tail = encoded_tail(v);
        let blocks = blocks_from(v.bands, 0);
        let size = (blocks.len() + 8) as u32;
        let pre = le32(HEADER_MAGIC1) + le32(crc32_of(tail));
        lemma_le32_at_concat(pre, size, d.skip(12));
        assert(pre + le32(size) + d.skip(12) =~= d);
        assert(le32_at(d, 8) == size);
        assert(d.len() == 56 + blocks.len());
        assert(t[8] == d[8] && t[9] == d[9] && t[10] == d[10] && t[11] == d[11]);
        assert(le32_at(t, 8) == le32_at(d, 8));
        assert(size as int == d.len() - 48);
        assert(le32_at(t, 8) as int != t.len() - 48);
    }
}

/// Re-encoding a decoded signature yields byte-identical buffers: the
/// signature that comes out of `decode(encode(v))` encodes to exactly
/// `encode(v)` again.
pub proof fn lemma_reencode_identical(v: SigView)
    requires
        view_wf(v),
        valid_sample_rate(v.sample_rate_hz),
        forall|i: int| 0 <= i < 4 ==> passes_sorted(#[trigger] v.bands[i]),
        v.number_samples + sample_offset_spec(v.sample_rate_hz) <= u32::MAX,
        encoded_len_spec(v) <= u32::MAX,
    ensures
        decode_spec(encode_spec(v)) matches Ok(u) && encode_spec(u) == encode_spec(v),
{
    lemma_encode_decode_roundtrip(v);
}

} // verus!
