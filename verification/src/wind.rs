//! Wind from the four microphones: winner-take-all detection of a blow and the
//! hold that keeps a gust alive between breaths.
use vstd::prelude::*;

verus! {

/// Below this activity a microphone is considered silent.
pub const NOISE_GATE: u16 = 1500;

/// Silent packets in a row after which the wind is turned off.
pub const SILENT_HOLD: u32 = 4;

/// Side of the plant a microphone faces; the air pushes towards the opposite side.
#[derive(Clone, Copy, Debug, PartialEq, Eq, Structural)]
pub enum MicSide {
    Front,
    Right,
    Back,
    Left,
}

/// What the wind target should do after one sensor packet.
#[derive(Clone, Copy, Debug, PartialEq, Eq, Structural)]
pub enum WindCommand {
    /// A clear blow on microphone `side` with activity `level`.
    Blow { side: MicSide, level: u16 },
    /// Sustained silence: the wind goes to zero.
    Calm,
    /// Ambiguous or briefly silent: the previous target is kept.
    Keep,
}

/// `i` is the first index holding the largest activity of `v`.
pub open spec fn is_first_loudest(v: Seq<u16>, i: int) -> bool {
    &&& 0 <= i < v.len()
    &&& forall|j: int| 0 <= j < v.len() ==> v[j] <= v[i]
    &&& forall|j: int| 0 <= j < i ==> v[j] < v[i]
}

/// `r` is the largest activity of `v` outside index `w` (0 when there is none).
pub open spec fn is_runner_up(v: Seq<u16>, w: int, r: int) -> bool {
    &&& 0 <= r
    &&& forall|j: int| 0 <= j < v.len() && j != w ==> v[j] <= r
    &&& (r == 0 || exists|j: int| 0 <= j < v.len() && j != w && v[j] == r)
}

/// Index of the first loudest microphone.
pub open spec fn loudest(v: Seq<u16>) -> int {
    choose|i: int| is_first_loudest(v, i)
}

/// Largest activity among the microphones other than `w`.
pub open spec fn runner_up(v: Seq<u16>, w: int) -> int {
    choose|r: int| is_runner_up(v, w, r)
}

/// A blow is detected when the loudest microphone passes the noise gate and
/// beats the runner-up by a factor of 1.5.
pub open spec fn blow_detected(v: Seq<u16>) -> bool {
    let w = loudest(v);
    v[w] >= NOISE_GATE && 2 * v[w] > 3 * runner_up(v, w)
}

/// The side a microphone index faces (indices past the third are the left one).
pub open spec fn side_of(i: int) -> MicSide {
    if i == 0 {
        MicSide::Front
    } else if i == 1 {
        MicSide::Right
    } else if i == 2 {
        MicSide::Back
    } else {
        MicSide::Left
    }
}

/// The silent-packet counter and the command once packet `v` arrives, `ticks` silent packets having been counted before it.
pub open spec fn gate_step(ticks: u32, v: Seq<u16>) -> (u32, WindCommand) {
    let w = loudest(v);
    if blow_detected(v) {
        (0, WindCommand::Blow { side: side_of(w), level: v[w] })
    } else if v[w] < NOISE_GATE {
        let t = (ticks + 1) as u32;
        (t, if t >= SILENT_HOLD { WindCommand::Calm } else { WindCommand::Keep })
    } else {
        (ticks, WindCommand::Keep)
    }
}


/// Commands issued for a run of packets, starting from counter `ticks`.
pub open spec fn gate_run(ticks: u32, packets: Seq<Seq<u16>>) -> Seq<WindCommand>
    decreases packets.len(),
{
    if packets.len() == 0 {
        Seq::empty()
    } else {
        let (t, c) = gate_step(ticks, packets[0]);
        seq![c] + gate_run(t, packets.drop_first())
    }
}

/// A packet whose loudest microphone is below the noise gate.
pub open spec fn is_silent(v: Seq<u16>) -> bool {
    v[loudest(v)] < NOISE_GATE
}

proof fn lemma_loudest_exists(v: Seq<u16>)
    requires
        v.len() == 4,
    ensures
        is_first_loudest(v, loudest(v)),
{
    let i: int = if v[0] >= v[1] && v[0] >= v[2] && v[0] >= v[3] {
        0
    } else if v[1] >= v[2] && v[1] >= v[3] {
        1
    } else if v[2] >= v[3] {
        2
    } else {
        3
    };
    assert(is_first_loudest(v, i));
}

proof fn lemma_runner_up_exists(v: Seq<u16>, w: int)
    requires
        v.len() == 4,
        0 <= w < 4,
    ensures
        is_runner_up(v, w, runner_up(v, w)),
{
    let a: int = if w == 0 { 0 } else { v[0] as int };
    let b: int = if w == 1 { 0 } else { v[1] as int };
    let c: int = if w == 2 { 0 } else { v[2] as int };
    let d: int = if w == 3 { 0 } else { v[3] as int };
    let ab = if a >= b { a } else { b };
    let cd = if c >= d { c } else { d };
    let r = if ab >= cd { ab } else { cd };
    if r != 0 {
        if r == a {
            assert(v[0] == r);
        } else if r == b {
            assert(v[1] == r);
        } else if r == c {
            assert(v[2] == r);
        } else {
            assert(v[3] == r);
        }
    }
    assert(is_runner_up(v, w, r));
}

/// A blow is only reported when one microphone clearly dominates: its activity
/// passes the noise gate and exceeds one and a half times every other one.
pub proof fn lemma_blow_needs_dominance(v: Seq<u16>)
    requires
        v.len() == 4,
        blow_detected(v),
    ensures
        v[loudest(v)] >= NOISE_GATE,
        forall|j: int| 0 <= j < 4 && j != loudest(v) ==> 3 * #[trigger] v[j] < 2 * v[loudest(v)],
{
    lemma_loudest_exists(v);
    lemma_runner_up_exists(v, loudest(v));
}

/// Dominance is enough for a blow: when the first loudest microphone `w`
/// passes the noise gate and exceeds one and a half times every other
/// microphone, a blow on the side of `w` with its activity is reported and
/// the silence counter starts over, whatever it was. Microphones 0 to 3 face
/// the front, the right, the back and the left.
pub proof fn lemma_dominance_suffices(v: Seq<u16>, w: int, ticks: u32)
    requires
        v.len() == 4,
        is_first_loudest(v, w),
        v[w] >= NOISE_GATE,
        forall|j: int| 0 <= j < 4 && j != w ==> 3 * #[trigger] v[j] < 2 * v[w],
    ensures
        blow_detected(v),
        gate_step(ticks, v).0 == 0,
        gate_step(ticks, v).1 == (WindCommand::Blow { side: side_of(w), level: v[w] }),
        w == 0 ==> side_of(w) == MicSide::Front,
        w == 1 ==> side_of(w) == MicSide::Right,
        w == 2 ==> side_of(w) == MicSide::Back,
        w == 3 ==> side_of(w) == MicSide::Left,
{
    lemma_loudest_exists(v);
    lemma_first_loudest_unique(v, w, loudest(v));
    lemma_runner_up_exists(v, w);
    let r = runner_up(v, w);
    if r != 0 {
        let j = choose|j: int| 0 <= j < v.len() && j != w && v[j] == r;
        assert(3 * v[j] < 2 * v[w]);
    }
}

/// A gust survives short pauses between breaths: after a detected blow, the
/// first `SILENT_HOLD - 1` silent packets keep the previous wind and every
/// later silent packet turns it off, for as many pauses as the `u32` silence
/// counter can count.
pub proof fn lemma_gust_hold(blow: Seq<u16>, pauses: Seq<Seq<u16>>, ticks: u32)
    requires
        blow_detected(blow),
        pauses.len() <= u32::MAX,
        forall|i: int| 0 <= i < pauses.len() ==> is_silent(#[trigger] pauses[i]) && !blow_detected(
            pauses[i],
        ),
    ensures
        gate_run(ticks, seq![blow] + pauses).len() == pauses.len() + 1,
        gate_run(ticks, seq![blow] + pauses)[0] is Blow,
        forall|i: int|
            1 <= i <= pauses.len() ==> #[trigger] gate_run(ticks, seq![blow] + pauses)[i] == (if i
                < SILENT_HOLD {
                WindCommand::Keep
            } else {
                WindCommand::Calm
            }),
{
    let all = seq![blow] + pauses;
    assert(all[0] == blow);
    assert(all.drop_first() =~= pauses);
    lemma_pauses_run(0, pauses);
}

/// Silent packets after `start` silent ones: the `i`-th (from 1) keeps the
/// wind while the count stays below `SILENT_HOLD`, then calms it.
proof fn lemma_pauses_run(start: u32, pauses: Seq<Seq<u16>>)
    requires
        start + pauses.len() <= u32::MAX,
        forall|i: int| 0 <= i < pauses.len() ==> is_silent(#[trigger] pauses[i]) && !blow_detected(
            pauses[i],
        ),
    ensures
        gate_run(start, pauses).len() == pauses.len(),
        forall|i: int|
            0 <= i < pauses.len() ==> #[trigger] gate_run(start, pauses)[i] == (if start + i + 1
                < SILENT_HOLD {
                WindCommand::Keep
            } else {
                WindCommand::Calm
            }),
    decreases pauses.len(),
{
    if pauses.len() > 0 {
        let rest = pauses.drop_first();
        assert(is_silent(pauses[0]) && !blow_detected(pauses[0]));
        assert forall|i: int| 0 <= i < rest.len() implies is_silent(#[trigger] rest[i])
            && !blow_detected(rest[i]) by {
            assert(rest[i] == pauses[i + 1]);
        }
        lemma_pauses_run((start + 1) as u32, rest);
        let run = gate_run(start, pauses);
        assert forall|i: int| 0 <= i < pauses.len() implies #[trigger] run[i] == (if start + i + 1
            < SILENT_HOLD {
            WindCommand::Keep
        } else {
            WindCommand::Calm
        }) by {
            if i > 0 {
                assert(run[i] == gate_run((start + 1) as u32, rest)[i - 1]);
            }
        }
    }
}

proof fn lemma_first_loudest_unique(v: Seq<u16>, i: int, k: int)
    requires
        is_first_loudest(v, i),
        is_first_loudest(v, k),
    ensures
        i == k,
{
    assert(v[k] <= v[i]);
    assert(v[i] <= v[k]);
}

proof fn lemma_runner_up_unique(v: Seq<u16>, w: int, r: int, q: int)
    requires
        is_runner_up(v, w, r),
        is_runner_up(v, w, q),
    ensures
        r == q,
{
}

/// Index of the first loudest of the four readings.
pub fn loudest_index(raws: &[u16; 4]) -> (w: usize)
    ensures
        w == loudest(raws@),
        w < 4,
{
    let mut win: usize = 0;
    let mut i: usize = 1;
    while i < 4
        invariant
            1 <= i <= 4,
            raws@.len() == 4,
            is_first_loudest(raws@.take(i as int), win as int),
        decreases 4 - i,
    {
        if raws[i] > raws[win] {
            win = i;
        }
        i = i + 1;
        proof {
            assert(raws@.take(i as int).take((i - 1) as int) =~= raws@.take((i - 1) as int));
        }
    }
    proof {
        assert(raws@.take(4) =~= raws@);
        lemma_first_loudest_unique(raws@, win as int, loudest(raws@));
    }
    win
}

/// Largest reading outside index `w`, 0 when all others are 0.
pub fn runner_up_level(raws: &[u16; 4], w: usize) -> (r: u16)
    requires
        w < 4,
    ensures
        r == runner_up(raws@, w as int),
{
    let mut best: u16 = 0;
    let mut i: usize = 0;
    while i < 4
        invariant
            i <= 4,
            raws@.len() == 4,
            forall|j: int| 0 <= j < i && j != w ==> raws@[j] <= best,
            best == 0 || exists|j: int| 0 <= j < i && j != w && raws@[j] == best,
        decreases 4 - i,
    {
        if i != w && raws[i] > best {
            best = raws[i];
        }
        i = i + 1;
    }
    proof {
        assert(is_runner_up(raws@, w as int, best as int));
        lemma_runner_up_unique(raws@, w as int, best as int, runner_up(raws@, w as int));
    }
    best
}

/// The microphone side of index `i`.
pub fn side_for(i: usize) -> (side: MicSide)
    ensures
        side == side_of(i as int),
{
    match i {
        0 => MicSide::Front,
        1 => MicSide::Right,
        2 => MicSide::Back,
        _ => MicSide::Left,
    }
}

/// Whether packet `raws` holds a clear blow.
pub fn detect_blow(raws: &[u16; 4]) -> (detected: bool)
    ensures
        detected == blow_detected(raws@),
{
    let w = loudest_index(raws);
    let second = runner_up_level(raws, w);
    let top = raws[w];
    top >= NOISE_GATE && 2 * (top as u32) > 3 * (second as u32)
}

/// Counts silent packets so that a gust is not cut between breaths.
pub struct WindGate {
    pub silent_ticks: u32,
}

impl WindGate {
    pub fn new() -> (gate: Self)
        ensures
            gate.silent_ticks == 0,
    {
        WindGate { silent_ticks: 0 }
    }

    /// Consumes one sensor packet and says what the wind target must do.
    pub fn observe(&mut self, raws: &[u16; 4]) -> (command: WindCommand)
        requires
            old(self).silent_ticks < u32::MAX,
        ensures
            (final(self).silent_ticks, command) == gate_step(old(self).silent_ticks, raws@),
    {
        let w = loudest_index(raws);
        let second = runner_up_level(raws, w);
        let top = raws[w];
        if top >= NOISE_GATE && 2 * (top as u32) > 3 * (second as u32) {
            self.silent_ticks = 0;
            WindCommand::Blow { side: side_for(w), level: top }
        } else if top < NOISE_GATE {
            self.silent_ticks = self.silent_ticks + 1;
            if self.silent_ticks >= SILENT_HOLD {
                WindCommand::Calm
            } else {
                WindCommand::Keep
            }
        } else {
            WindCommand::Keep
        }
    }
}

} // verus!
