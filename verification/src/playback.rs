use vstd::prelude::*;

verus! {

/// Nanoseconds in one second.
pub const NANOS_PER_SEC: u128 = 1_000_000_000;

/// Where a looping track of `track_nanos` nanoseconds stands at local
/// time `now`, once the clock is shifted by `synced_offset`: `now` minus
/// the offset taken as an unsigned number, modulo 2^128, then modulo the
/// track's length.
pub open spec fn track_position_spec(now: u128, synced_offset: i128, track_nanos: u128) -> u128 {
    now.wrapping_sub(synced_offset as u128) % track_nanos
}

/// The number of interleaved samples that `nanos` nanoseconds of audio at
/// `sample_rate` frames per second and `channels` channels take: the
/// nanoseconds times the rate, divided by 10^9, times the channels, each
/// product modulo 2^128 (unsigned division never wraps).
pub open spec fn sample_count_spec(nanos: u128, sample_rate: u32, channels: u16) -> u128 {
    (nanos.wrapping_mul(sample_rate as u128) / NANOS_PER_SEC).wrapping_mul(channels as u128)
}

/// The position in a looping track that the synchronised clock points
/// at; every listener that shares the offset computes the same position.
pub fn track_position(now: u128, synced_offset: i128, track_nanos: u128) -> (pos: u128)
    requires
        track_nanos > 0,
    ensures
        pos == track_position_spec(now, synced_offset, track_nanos),
        pos < track_nanos,
{
    now.wrapping_sub(synced_offset as u128) % track_nanos
}

/// How many samples to skip to advance the playback by `nanos`
/// nanoseconds.
pub fn samples_to_skip(nanos: u128, sample_rate: u32, channels: u16) -> (count: u128)
    ensures
        count == sample_count_spec(nanos, sample_rate, channels),
{
    let rate: u128 = sample_rate as u128;
    let chans: u128 = channels as u128;
    (nanos.wrapping_mul(rate) / NANOS_PER_SEC).wrapping_mul(chans)
}

/// 2^128, the modulus of `u128` arithmetic.
pub open spec fn u128_modulus() -> int {
    0x1_0000_0000_0000_0000_0000_0000_0000_0000int
}

/// The track position is the signed distance from the offset to `now`,
/// taken modulo 2^128 and then modulo the track's length.
pub proof fn lemma_track_position_is_distance(now: u128, synced_offset: i128, track_nanos: u128)
    requires
        track_nanos > 0,
    ensures
        track_position_spec(now, synced_offset, track_nanos) == ((now - synced_offset)
            % u128_modulus()) % (track_nanos as int),
{
    let o = synced_offset as u128;
    if synced_offset >= 0 {
        assert(o as int == synced_offset);
    } else {
        assert(synced_offset < 0 ==> synced_offset as u128 == (synced_offset as int
            + 0x1_0000_0000_0000_0000_0000_0000_0000_0000int) as u128) by (bit_vector);
        assert(o as int == synced_offset + u128_modulus());
    }
    let d = now - synced_offset;
    let w = now.wrapping_sub(o);
    if now >= o {
        assert(w as int == now - o);
    } else {
        assert(w as int == now - o + u128_modulus());
    }
    assert(w as int == d % u128_modulus()) by {
        vstd::arithmetic::div_mod::lemma_fundamental_div_mod_converse(
            d,
            u128_modulus(),
            (d - w as int) / u128_modulus(),
            w as int,
        );
    }
}

/// When `now` lies at or after the offset, by less than 2^128, the track
/// position is plainly `now - synced_offset` modulo the track's length.
pub proof fn lemma_track_position_no_wrap(now: u128, synced_offset: i128, track_nanos: u128)
    requires
        track_nanos > 0,
        0 <= now - synced_offset < u128_modulus(),
    ensures
        track_position_spec(now, synced_offset, track_nanos) == (now - synced_offset) % (
        track_nanos as int),
{
    lemma_track_position_is_distance(now, synced_offset, track_nanos);
    vstd::arithmetic::div_mod::lemma_small_mod((now - synced_offset) as nat, u128_modulus() as nat);
}

/// Without wrap-around, the sample count is the duration times the rate,
/// in whole frames (rounded down), times the channels.
pub proof fn lemma_sample_count_no_wrap(nanos: u128, sample_rate: u32, channels: u16)
    requires
        nanos * sample_rate <= u128::MAX,
        (nanos * sample_rate) / (NANOS_PER_SEC as int) * channels <= u128::MAX,
    ensures
        sample_count_spec(nanos, sample_rate, channels) == (nanos * sample_rate) / (
        NANOS_PER_SEC as int) * channels,
{
    let p = nanos as nat * sample_rate as nat;
    vstd::arithmetic::div_mod::lemma_small_mod(p, u128_modulus() as nat);
    let f = ((nanos * sample_rate) / (NANOS_PER_SEC as int)) as nat;
    let q = f * channels as nat;
    vstd::arithmetic::div_mod::lemma_small_mod(q, u128_modulus() as nat);
}

/// `seconds` whole seconds of audio, without wrap-around, take exactly
/// `seconds * sample_rate * channels` samples.
pub proof fn lemma_sample_count_whole_seconds(seconds: u128, sample_rate: u32, channels: u16)
    requires
        seconds * NANOS_PER_SEC <= u128::MAX,
        seconds * NANOS_PER_SEC * sample_rate <= u128::MAX,
        seconds * sample_rate * channels <= u128::MAX,
    ensures
        sample_count_spec((seconds * NANOS_PER_SEC) as u128, sample_rate, channels) == seconds
            * sample_rate * channels,
{
    let nanos = (seconds * NANOS_PER_SEC) as u128;
    assert(nanos == seconds * NANOS_PER_SEC);
    assert(nanos * sample_rate == (seconds * sample_rate) * NANOS_PER_SEC) by (nonlinear_arith)
        requires
            nanos == seconds * NANOS_PER_SEC,
    ;
    assert(nanos * sample_rate == seconds * NANOS_PER_SEC * sample_rate) by (nonlinear_arith)
        requires
            nanos == seconds * NANOS_PER_SEC,
    ;
    vstd::arithmetic::div_mod::lemma_div_multiples_vanish(
        (seconds * sample_rate) as int,
        NANOS_PER_SEC as int,
    );
    assert((seconds * sample_rate) * NANOS_PER_SEC == NANOS_PER_SEC * (seconds * sample_rate))
        by (nonlinear_arith);
    assert((seconds * sample_rate) * channels == seconds * sample_rate * channels)
        by (nonlinear_arith);
    lemma_sample_count_no_wrap(nanos, sample_rate, channels);
}

} // verus!
