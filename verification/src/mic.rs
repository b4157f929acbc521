//! ADS1115 microphone front end: register words, conversion decoding and the
//! robust amplitude of a burst of samples.
use vstd::prelude::*;
use vstd::relations::{sorted_by, total_ordering};

verus! {

broadcast use {vstd::seq_lib::group_to_multiset_ensures, vstd::multiset::group_multiset_axioms};


/// I2C address of the ADS1115 converter.
pub const ADS1115_ADDR: u16 = 0x48;

/// Conversion result register.
pub const REG_CONVERSION: u8 = 0x00;

/// Configuration register.
pub const REG_CONFIG: u8 = 0x01;

/// Number of microphones wired to the converter.
pub const MICROPHONES_SIZE: usize = 4;

/// Latest activity reading of one microphone channel.
#[derive(Clone, Copy, Debug, PartialEq, Eq, Structural, Default)]
pub struct MicReading {
    pub channel: u8,
    pub raw: u16,
}


/// Polls of the configuration register made while waiting for a conversion.
pub const MAX_POLLS: u32 = 50;

/// What to do after polling the configuration register.
#[derive(Clone, Copy, Debug, PartialEq, Eq, Structural)]
pub enum PollStep {
    /// The conversion finished: read the result now.
    ReadNow,
    /// Not finished: sleep, then poll again.
    SleepThenPoll,
    /// Not finished after the last poll: sleep, then read the result anyway.
    SleepThenRead,
}

/// Decision after poll number `poll` (from 0) reported `ready`: a finished
/// conversion is read at once; otherwise the reader sleeps and polls again,
/// up to `MAX_POLLS` polls in all.
pub fn after_poll(poll: u32, ready: bool) -> (step: PollStep)
    requires
        poll < MAX_POLLS,
    ensures
        step == if ready {
            PollStep::ReadNow
        } else if poll + 1 < MAX_POLLS {
            PollStep::SleepThenPoll
        } else {
            PollStep::SleepThenRead
        },
{
    if ready {
        PollStep::ReadNow
    } else if poll + 1 < MAX_POLLS {
        PollStep::SleepThenPoll
    } else {
        PollStep::SleepThenRead
    }
}

/// Readings of all microphones before any activity is measured: channel `i`
/// at index `i`, with no activity.
pub fn idle_readings() -> (readings: [MicReading; 4])
    ensures
        forall|i: int|
            0 <= i < 4 ==> #[trigger] readings@[i] == (MicReading { channel: i as u8, raw: 0 }),
{
    [
        MicReading { channel: 0, raw: 0 },
        MicReading { channel: 1, raw: 0 },
        MicReading { channel: 2, raw: 0 },
        MicReading { channel: 3, raw: 0 },
    ]
}

/// `x` with its two bytes exchanged (SMBus words are little-endian, the
/// ADS1115 registers big-endian).
pub open spec fn swapped(x: u16) -> u16 {
    (x >> 8u16) | (x << 8u16)
}

/// Exchanges the two bytes of `x`.
pub fn swap_bytes(x: u16) -> (r: u16)
    ensures
        r == swapped(x),
        swapped(r) == x,
{
    let r = (x >> 8u16) | (x << 8u16);
    assert(((x >> 8u16) | (x << 8u16)) >> 8u16 | (((x >> 8u16) | (x << 8u16)) << 8u16) == x)
        by (bit_vector);
    r
}

/// Configuration register value that starts a single-shot conversion on
/// `channel`: OS=1, single-ended MUX, PGA ±2.048 V, single-shot mode,
/// 860 samples/s, comparator disabled.
pub open spec fn config_for(channel: u8) -> u16 {
    0x8000u16 | (((4 + channel) as u16) << 12u16) | 0x0400u16 | 0x0100u16 | 0x00E0u16 | 0x0003u16
}

/// Configuration register value for a conversion on `channel`.
pub fn config_word(channel: u8) -> (word: u16)
    ensures
        word == config_for(channel),
        channel < MICROPHONES_SIZE ==> word == 0xC5E3 + 0x1000 * channel,
{
    let mux: u16 = 0x04u16 + channel as u16;
    let word: u16 = 0x8000u16 | (mux << 12u16) | 0x0400u16 | 0x0100u16 | 0x00E0u16 | 0x0003u16;
    proof {
        let c = channel as u16;
        assert(mux == (4 + channel) as u16);
        assert(c < 4 && mux == 4 + c ==> 0x8000u16 | (mux << 12u16) | 0x0400u16 | 0x0100u16
            | 0x00E0u16 | 0x0003u16 == 0xC5E3 + 0x1000 * c) by (bit_vector);
    }
    word
}

/// The configuration word as written on the bus (bytes exchanged).
pub fn config_wire_word(channel: u8) -> (wire: u16)
    ensures
        wire == swapped(config_for(channel)),
{
    swap_bytes(config_word(channel))
}

/// Whether a configuration register read back from the bus reports the
/// conversion as finished (OS bit set).
pub fn conversion_ready(wire: u16) -> (ready: bool)
    ensures
        ready == (swapped(wire) & 0x8000u16 != 0),
{
    let cfg = swap_bytes(wire);
    cfg & 0x8000u16 != 0
}

/// Signed conversion result from the word read on the bus.
pub fn decode_conversion(wire: u16) -> (sample: i16)
    ensures
        sample == swapped(wire) as i16,
{
    swap_bytes(wire) as i16
}

/// Number of samples in one amplitude burst.
pub const BURST_SAMPLES: usize = 20;

/// Samples discarded at each end of a sorted burst.
pub const BURST_TRIM: usize = 2;

/// `a <= b` on samples, the order bursts are sorted by.
pub open spec fn sample_leq() -> spec_fn(i16, i16) -> bool {
    |a: i16, b: i16| a <= b
}

/// The samples of `s` in ascending order.
pub open spec fn ascending(s: Seq<i16>) -> Seq<i16> {
    s.sort_by(sample_leq())
}

/// Spread of a burst once the `BURST_TRIM` lowest and highest samples are dropped.
pub open spec fn trimmed_spread(s: Seq<i16>) -> int {
    ascending(s)[(BURST_SAMPLES - 1 - BURST_TRIM) as int] - ascending(s)[BURST_TRIM as int]
}

proof fn lemma_sample_leq_total()
    ensures
        total_ordering(sample_leq()),
{
}

/// `ascending(s)` is the unique sorted rearrangement of `s`.
proof fn lemma_ascending_is(s: Seq<i16>, t: Seq<i16>)
    requires
        sorted_by(t, sample_leq()),
        t.to_multiset() == s.to_multiset(),
    ensures
        ascending(s) == t,
{
    lemma_sample_leq_total();
    s.lemma_sort_by_ensures(sample_leq());
    vstd::seq_lib::lemma_sorted_unique(ascending(s), t, sample_leq());
}


/// Filtering commutes with forgetting the order of a sequence.
proof fn lemma_filter_to_multiset(s: Seq<i16>, p: spec_fn(i16) -> bool)
    ensures
        s.filter(p).to_multiset() == s.to_multiset().filter(p),
    decreases s.len(),
{
    if s.len() == 0 {
        assert(s.filter(p) =~= Seq::<i16>::empty());
        assert(s.to_multiset().filter(p) =~= vstd::multiset::Multiset::<i16>::empty());
    } else {
        let r = s.drop_last();
        let x = s.last();
        lemma_filter_to_multiset(r, p);
        assert(r.push(x) =~= s);
        r.lemma_filter_push(x, p);
        vstd::seq_lib::to_multiset_build(r, x);
        if p(x) {
            vstd::seq_lib::to_multiset_build(r.filter(p), x);
        }
        assert(s.filter(p).to_multiset() =~= s.to_multiset().filter(p));
    }
}

/// Rearranging a sequence keeps the number of its elements that satisfy `p`.
proof fn lemma_filter_len_of_rearrangement(s: Seq<i16>, t: Seq<i16>, p: spec_fn(i16) -> bool)
    requires
        s.to_multiset() == t.to_multiset(),
    ensures
        s.filter(p).len() == t.filter(p).len(),
{
    lemma_filter_to_multiset(s, p);
    lemma_filter_to_multiset(t, p);
    vstd::seq_lib::to_multiset_len(s.filter(p));
    vstd::seq_lib::to_multiset_len(t.filter(p));
}

/// A three-element sequence whose elements all satisfy `p` keeps all three.
proof fn lemma_filter_three(a: i16, b: i16, c: i16, p: spec_fn(i16) -> bool)
    requires
        p(a),
        p(b),
        p(c),
    ensures
        seq![a, b, c].filter(p).len() == 3,
{
    let e = Seq::<i16>::empty();
    assert(e.filter(p) =~= e);
    e.lemma_filter_len_push(p, a);
    e.push(a).lemma_filter_len_push(p, b);
    e.push(a).push(b).lemma_filter_len_push(p, c);
    assert(e.push(a).push(b).push(c) =~= seq![a, b, c]);
}

/// The amplitude of a burst does not depend on the order in which its
/// samples were taken.
pub proof fn lemma_amplitude_ignores_order(s1: Seq<i16>, s2: Seq<i16>)
    requires
        s1.to_multiset() == s2.to_multiset(),
    ensures
        ascending(s1) == ascending(s2),
        trimmed_spread(s1) == trimmed_spread(s2),
{
    lemma_sample_leq_total();
    s1.lemma_sort_by_ensures(sample_leq());
    lemma_ascending_is(s2, ascending(s1));
}

/// Spurious samples are trimmed: if at most `BURST_TRIM` samples of a burst
/// fall below `lo` and at most `BURST_TRIM` rise above `hi`, the amplitude is
/// no larger than `hi - lo`, however extreme those samples are.
pub proof fn lemma_spikes_are_trimmed(s: Seq<i16>, lo: i16, hi: i16)
    requires
        s.len() == BURST_SAMPLES,
        s.filter(|x: i16| x < lo).len() <= BURST_TRIM,
        s.filter(|x: i16| x > hi).len() <= BURST_TRIM,
    ensures
        trimmed_spread(s) <= hi - lo,
{
    let below = |x: i16| x < lo;
    let above = |x: i16| x > hi;
    let t = ascending(s);
    lemma_sample_leq_total();
    s.lemma_sort_by_ensures(sample_leq());
    vstd::seq_lib::to_multiset_len(s);
    vstd::seq_lib::to_multiset_len(t);
    assert(t.len() == BURST_SAMPLES);
    lemma_filter_len_of_rearrangement(s, t, below);
    lemma_filter_len_of_rearrangement(s, t, above);
    if t[2] < lo {
        assert(sample_leq()(t[0], t[2]));
        assert(sample_leq()(t[1], t[2]));
        let head = t.take(3);
        let tail = t.skip(3);
        assert(head =~= seq![t[0], t[1], t[2]]);
        lemma_filter_three(t[0], t[1], t[2], below);
        assert(head + tail =~= t);
        Seq::filter_distributes_over_add(head, tail, below);
        assert(false);
    }
    if t[17] > hi {
        assert(sample_leq()(t[17], t[18]));
        assert(sample_leq()(t[17], t[19]));
        let head = t.take(17);
        let tail = t.skip(17);
        assert(tail =~= seq![t[17], t[18], t[19]]);
        lemma_filter_three(t[17], t[18], t[19], above);
        assert(head + tail =~= t);
        Seq::filter_distributes_over_add(head, tail, above);
        assert(false);
    }
}

/// At most the samples at positions `i` and `j` satisfy `p`, so at most two do.
proof fn lemma_only_two_satisfy(s: Seq<i16>, p: spec_fn(i16) -> bool, i: int, j: int)
    requires
        forall|k: int| 0 <= k < s.len() && k != i && k != j ==> !p(#[trigger] s[k]),
    ensures
        s.filter(p).len() <= (if 0 <= i < s.len() { 1int } else { 0int }) + (if 0 <= j < s.len()
            && j != i { 1int } else { 0int }),
    decreases s.len(),
{
    if s.len() == 0 {
        s.lemma_filter_len(p);
    } else {
        let r = s.drop_last();
        let x = s.last();
        assert forall|k: int| 0 <= k < r.len() && k != i && k != j implies !p(#[trigger] r[k]) by {
            assert(r[k] == s[k]);
        }
        lemma_only_two_satisfy(r, p, i, j);
        assert(r.push(x) =~= s);
        r.lemma_filter_len_push(p, x);
    }
}

/// Any two samples of a burst are ignored: if every sample but those at
/// positions `i` and `j` lies within `[lo, hi]`, the amplitude is at most
/// `hi - lo`. Taking `lo` and `hi` as the least and the greatest of the other
/// samples, two spurious samples cannot fabricate amplitude.
pub proof fn lemma_two_samples_ignored(s: Seq<i16>, i: int, j: int, lo: i16, hi: i16)
    requires
        s.len() == BURST_SAMPLES,
        forall|k: int| 0 <= k < s.len() && k != i && k != j ==> lo <= #[trigger] s[k] <= hi,
    ensures
        trimmed_spread(s) <= hi - lo,
{
    lemma_only_two_satisfy(s, |x: i16| x < lo, i, j);
    lemma_only_two_satisfy(s, |x: i16| x > hi, i, j);
    lemma_spikes_are_trimmed(s, lo, hi);
}

/// Sorts `v` in ascending order (insertion sort).
fn sort_ascending(v: &mut Vec<i16>)
    ensures
        final(v)@.len() == old(v)@.len(),
        final(v)@.to_multiset() == old(v)@.to_multiset(),
        sorted_by(final(v)@, sample_leq()),
{
    let n = v.len();
    let mut i: usize = 1;
    if n == 0 {
        return;
    }
    while i < n
        invariant
            1 <= i <= n,
            n == v@.len(),
            v@.to_multiset() == old(v)@.to_multiset(),
            forall|a: int, b: int| 0 <= a < b < i ==> v@[a] <= v@[b],
        decreases n - i,
    {
        let mut j: usize = i;
        while j > 0 && v[j - 1] > v[j]
            invariant
                0 <= j <= i < n,
                n == v@.len(),
                v@.to_multiset() == old(v)@.to_multiset(),
                forall|a: int, b: int| 0 <= a < b <= i && b != j ==> v@[a] <= v@[b],
                forall|a: int, b: int| 0 <= a < j && j < b <= i ==> v@[a] <= v@[b],
            decreases j,
        {
            let x = v[j - 1];
            let y = v[j];
            proof {
                let s0 = v@;
                let s1 = s0.update(j - 1, y);
                let s2 = s1.update(j as int, x);
                vstd::seq_lib::to_multiset_update(s0, j - 1, y);
                vstd::seq_lib::to_multiset_update(s1, j as int, x);
                assert(s2.to_multiset() =~= s0.to_multiset());
            }
            v.set(j - 1, y);
            v.set(j, x);
            j = j - 1;
        }
        i = i + 1;
    }
}

/// Robust amplitude of a burst: the spread between the third-lowest and the
/// third-highest sample, so that two spurious samples at either end cannot
/// fabricate amplitude.
pub fn trimmed_amplitude(samples: [i16; 20]) -> (amplitude: u16)
    ensures
        amplitude == trimmed_spread(samples@),
{
    let mut v: Vec<i16> = Vec::new();
    let mut k: usize = 0;
    while k < BURST_SAMPLES
        invariant
            k <= BURST_SAMPLES,
            v@ == samples@.take(k as int),
        decreases BURST_SAMPLES - k,
    {
        v.push(samples[k]);
        k = k + 1;
        proof {
            assert(v@ =~= samples@.take(k as int));
        }
    }
    assert(v@ =~= samples@);
    sort_ascending(&mut v);
    proof {
        lemma_ascending_is(samples@, v@);
        assert(sample_leq()(v@[BURST_TRIM as int], v@[(BURST_SAMPLES - 1 - BURST_TRIM) as int]));
    }
    let high = v[BURST_SAMPLES - 1 - BURST_TRIM] as i32;
    let low = v[BURST_TRIM] as i32;
    let spread = high - low;
    let clamped = if spread < 0 {
        0
    } else if spread > 65535 {
        65535
    } else {
        spread
    };
    clamped as u16
}

} // verus!
