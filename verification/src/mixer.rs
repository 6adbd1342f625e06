//! Per-output mixing with gain control and priority ducking.
//!
//! A `Source` is one input feeding one mixer: it carries the route's gain
//! and ducking parameters and pulls frame buffers from its input's bounded
//! queue. A `Mixer` owns the sources of one output and combines whatever
//! they produced this round: every fresh buffer is scaled by its source's
//! effective gain — reduced by the duck amount while a priority source is
//! audibly active — summed sample by sample, and clamped to the 16-bit
//! sample range.

use vstd::prelude::*;
use crate::channel::{frame_channel, try_recv_frames};
use crate::gain::{db_to_lin, lin_of_mb, LIN_ONE, MB_MAX, MB_MIN};
use crossbeam_channel::{Receiver, Sender};

verus! {

/// A buffer is silent when every sample is below the audibility
/// threshold of 10 (out of 32767) in magnitude.
pub open spec fn buffer_silent(b: Seq<i16>) -> bool {
    forall|i: int| 0 <= i < b.len() ==> -10 < #[trigger] b[i] < 10
}

/// One input feeding one mixer.
pub struct Source {
    /// Id of the input this source pulls from.
    pub input_id: String,
    /// Gain in millibels applied when mixing.
    pub gain_mb: i32,
    /// Whether this source ducks the others while it is audible.
    pub duck_priority: bool,
    /// How far, in millibels, non-priority sources are reduced while a
    /// priority source is audible.
    pub duck_mb: i32,
    /// The inbound frame queue, present while the source is started.
    pub receiver: Option<Receiver<Vec<i16>>>,
    /// The buffer pulled this round (or injected for tests).
    pub buffer: Vec<i16>,
    /// Whether `buffer` was freshly produced this round.
    pub fresh: bool,
    /// Whether an injected buffer is waiting to be consumed.
    pub pending: bool,
    /// Whether the source produced audible (non-silent) data this round.
    pub is_active: bool,
}

/// The per-route parameters of a source, which mixing never changes.
pub open spec fn same_params(a: Source, b: Source) -> bool {
    &&& a.input_id@ == b.input_id@
    &&& a.gain_mb == b.gain_mb
    &&& a.duck_priority == b.duck_priority
    &&& a.duck_mb == b.duck_mb
}

/// True when every sample of the buffer is below the silence threshold.
pub fn buffer_is_silent(b: &Vec<i16>) -> (r: bool)
    ensures
        r == buffer_silent(b@),
{
    let n = b.len();
    let mut i: usize = 0;
    while i < n
        invariant
            0 <= i <= n,
            n == b@.len(),
            forall|j: int| 0 <= j < i ==> -10 < #[trigger] b@[j] < 10,
        decreases n - i,
    {
        let s = b[i];
        if s <= -10 || s >= 10 {
            return false;
        }
        i = i + 1;
    }
    true
}

impl Source {
    /// A stopped source with the given route parameters.
    pub fn new(input_id: String, gain_mb: i32, duck_priority: bool, duck_mb: i32) -> (s: Source)
        ensures
            s.input_id@ == input_id@,
            s.gain_mb == gain_mb,
            s.duck_priority == duck_priority,
            s.duck_mb == duck_mb,
            s.receiver is None,
            s.buffer@.len() == 0,
            !s.fresh,
            !s.pending,
            !s.is_active,
    {
        Source {
            input_id,
            gain_mb,
            duck_priority,
            duck_mb,
            receiver: None,
            buffer: Vec::new(),
            fresh: false,
            pending: false,
            is_active: false,
        }
    }

    /// Attaches a fresh bounded queue and hands back the sender for the
    /// input driver to produce into.
    pub fn start(&mut self) -> (tx: Sender<Vec<i16>>)
        ensures
            final(self).input_id@ == old(self).input_id@,
            final(self).gain_mb == old(self).gain_mb,
            final(self).duck_priority == old(self).duck_priority,
            final(self).duck_mb == old(self).duck_mb,
            final(self).receiver is Some,
            final(self).buffer@ == old(self).buffer@,
            final(self).fresh == old(self).fresh,
            final(self).pending == old(self).pending,
            final(self).is_active == old(self).is_active,
    {
        let (tx, rx) = frame_channel();
        self.receiver = Some(rx);
        tx
    }

    /// Detaches the queue; producers observe the closed queue and exit.
    pub fn stop(&mut self)
        ensures
            final(self).input_id@ == old(self).input_id@,
            final(self).gain_mb == old(self).gain_mb,
            final(self).duck_priority == old(self).duck_priority,
            final(self).duck_mb == old(self).duck_mb,
            final(self).receiver is None,
            final(self).buffer@ == old(self).buffer@,
            final(self).fresh == old(self).fresh,
            final(self).pending == old(self).pending,
            final(self).is_active == old(self).is_active,
    {
        self.receiver = None;
    }

    /// Hands the source a buffer directly, as if its input had produced
    /// it; the next poll consumes it. Meant for exercising the mixer
    /// without running producer threads.
    pub fn set_test_buffer(&mut self, buffer: Vec<i16>)
        ensures
            same_params(*old(self), *final(self)),
            final(self).buffer@ == buffer@,
            final(self).pending,
            final(self).fresh == old(self).fresh,
            final(self).is_active == old(self).is_active,
    {
        self.buffer = buffer;
        self.pending = true;
    }

    /// Refreshes the source for one mixing round: consumes an injected
    /// buffer if one is waiting, otherwise pulls from the queue without
    /// blocking. After the call, `fresh` says whether this round has data
    /// from this source, and `is_active` whether that data is audible.
    pub fn poll(&mut self)
        ensures
            same_params(*old(self), *final(self)),
            old(self).receiver is Some <==> final(self).receiver is Some,
            !final(self).pending,
            final(self).fresh ==> final(self).is_active == !buffer_silent(final(self).buffer@),
            !final(self).fresh ==> !final(self).is_active && final(self).buffer@ == old(self).buffer@,
            old(self).pending ==> final(self).fresh && final(self).buffer@ == old(self).buffer@,
            !old(self).pending && old(self).receiver is None ==> !final(self).fresh,
    {
        if self.pending {
            self.pending = false;
            self.fresh = true;
            self.is_active = !buffer_is_silent(&self.buffer);
            return ;
        }
        let got = match &self.receiver {
            Some(rx) => try_recv_frames(rx),
            None => None,
        };
        match got {
            Some(b) => {
                self.buffer = b;
                self.fresh = true;
                self.is_active = !buffer_is_silent(&self.buffer);
            },
            None => {
                self.fresh = false;
                self.is_active = false;
            },
        }
    }
}

/// Some source is both marked priority and audibly active this round.
pub open spec fn priority_active(ss: Seq<Source>) -> bool {
    exists|i: int| 0 <= i < ss.len() && (#[trigger] ss[i]).duck_priority && ss[i].is_active
}

/// Some source produced data this round.
pub open spec fn any_fresh(ss: Seq<Source>) -> bool {
    exists|i: int| 0 <= i < ss.len() && (#[trigger] ss[i]).fresh
}

/// The gain a source is mixed at, in millibels: its own gain, reduced by
/// its duck amount when a priority source is active and this source is
/// not itself priority.
pub open spec fn effective_gain_mb(s: Source, ap: bool) -> int {
    if ap && !s.duck_priority {
        s.gain_mb - s.duck_mb
    } else {
        s.gain_mb as int
    }
}

/// A sample scaled by a Q24 gain factor, rounded toward zero.
pub open spec fn scale_sample(s: int, g: int) -> int {
    if s >= 0 {
        s * g / (LIN_ONE as int)
    } else {
        -((-s) * g / (LIN_ONE as int))
    }
}

/// What one source adds to the mix at sample index `i`: its scaled sample
/// while it has fresh data covering `i`, nothing otherwise.
pub open spec fn source_term(s: Source, ap: bool, i: int) -> int {
    if s.fresh && 0 <= i < s.buffer@.len() {
        scale_sample(s.buffer@[i] as int, lin_of_mb(effective_gain_mb(s, ap)))
    } else {
        0
    }
}

/// The sum of the first `j` sources' contributions at sample index `i`.
pub open spec fn sum_terms(ss: Seq<Source>, ap: bool, i: int, j: int) -> int
    decreases j,
{
    if j <= 0 {
        0
    } else {
        sum_terms(ss, ap, i, j - 1) + source_term(ss[j - 1], ap, i)
    }
}

/// A value clamped to the signed 16-bit sample range.
pub open spec fn clamp_i16(v: int) -> int {
    if v > 32767 {
        32767
    } else if v < -32768 {
        -32768
    } else {
        v
    }
}

/// How many samples this round's mix holds: the length of the longest
/// fresh buffer; shorter sources contribute only to their prefix.
pub open spec fn mix_len(ss: Seq<Source>) -> int
    decreases ss.len(),
{
    if ss.len() == 0 {
        0
    } else {
        let rest = mix_len(ss.drop_last());
        let l = if ss.last().fresh {
            ss.last().buffer@.len() as int
        } else {
            0
        };
        if l > rest {
            l
        } else {
            rest
        }
    }
}

/// The mixed sample at index `i`: every source's contribution summed and
/// clamped to the 16-bit range.
pub open spec fn mixed_value(ss: Seq<Source>, i: int) -> int {
    clamp_i16(sum_terms(ss, priority_active(ss), i, ss.len() as int))
}

/// The whole buffer one mixing round produces.
pub open spec fn mix_spec(ss: Seq<Source>) -> Seq<i16> {
    Seq::new(mix_len(ss) as nat, |i: int| mixed_value(ss, i) as i16)
}

/// No mixed sample ever leaves the signed 16-bit range: the mix clamps
/// (saturates) instead of wrapping.
pub proof fn lemma_mix_no_clipping(ss: Seq<Source>, i: int)
    ensures
        -32768 <= mixed_value(ss, i) <= 32767,
{
}

/// Ducking is exact: while a priority source is audibly active, a fresh
/// non-priority source contributes its samples scaled by the factor for
/// its gain less its duck amount; with no priority source active, or for
/// a priority source itself, the factor for its own gain applies.
pub proof fn lemma_ducking(ss: Seq<Source>, j: int, i: int)
    requires
        0 <= j < ss.len(),
        ss[j].fresh,
        0 <= i < ss[j].buffer@.len(),
    ensures
        priority_active(ss) && !ss[j].duck_priority ==> source_term(ss[j], priority_active(ss), i)
            == scale_sample(ss[j].buffer@[i] as int, lin_of_mb(ss[j].gain_mb - ss[j].duck_mb)),
        !priority_active(ss) ==> source_term(ss[j], priority_active(ss), i) == scale_sample(
            ss[j].buffer@[i] as int,
            lin_of_mb(ss[j].gain_mb as int),
        ),
        ss[j].duck_priority ==> source_term(ss[j], priority_active(ss), i) == scale_sample(
            ss[j].buffer@[i] as int,
            lin_of_mb(ss[j].gain_mb as int),
        ),
{
}

/// A gain of 0 mB passes samples through unchanged.
pub proof fn lemma_unit_gain_exact(s: int)
    requires
        -32768 <= s <= 32767,
    ensures
        scale_sample(s, lin_of_mb(0)) == s,
{
    crate::gain::lemma_lin_of_mb_zero();
    if s >= 0 {
        vstd::arithmetic::div_mod::lemma_div_multiples_vanish(s, LIN_ONE as int);
    } else {
        vstd::arithmetic::div_mod::lemma_div_multiples_vanish(-s, LIN_ONE as int);
    }
}

/// One sample scaled by a Q24 gain factor.
fn scale(s: i16, g: u64) -> (r: i64)
    requires
        g <= 167772160,
    ensures
        r as int == scale_sample(s as int, g as int),
        -400000 <= r <= 400000,
{
    if s >= 0 {
        proof {
            assert((s as int) * (g as int) <= 32767 * 167772160) by (nonlinear_arith)
                requires
                    0 <= s <= 32767,
                    0 <= g <= 167772160,
            ;
            assert((s as int) * (g as int) >= 0) by (nonlinear_arith)
                requires
                    0 <= s,
                    0 <= g,
            ;
        }
        let p: u64 = (s as u64) * g;
        proof {
            vstd::arithmetic::div_mod::lemma_div_is_ordered(
                p as int,
                (32767 * 167772160) as int,
                LIN_ONE as int,
            );
            vstd::arithmetic::div_mod::lemma_div_pos_is_pos(p as int, LIN_ONE as int);
        }
        (p / LIN_ONE) as i64
    } else {
        let m: i64 = -(s as i64);
        proof {
            assert((m as int) * (g as int) <= 32768 * 167772160) by (nonlinear_arith)
                requires
                    0 <= m <= 32768,
                    0 <= g <= 167772160,
            ;
            assert((m as int) * (g as int) >= 0) by (nonlinear_arith)
                requires
                    0 <= m,
                    0 <= g,
            ;
        }
        let p: u64 = (m as u64) * g;
        proof {
            vstd::arithmetic::div_mod::lemma_div_is_ordered(
                p as int,
                (32768 * 167772160) as int,
                LIN_ONE as int,
            );
            vstd::arithmetic::div_mod::lemma_div_pos_is_pos(p as int, LIN_ONE as int);
        }
        -((p / LIN_ONE) as i64)
    }
}

/// The mixer of one output: the sources routed to it.
pub struct Mixer {
    pub sources: Vec<Source>,
}

impl Mixer {
    /// A mixer over the given sources.
    pub fn new(sources: Vec<Source>) -> (m: Mixer)
        ensures
            m.sources@ == sources@,
    {
        Mixer { sources }
    }

    /// How many sources feed this mixer.
    pub fn source_count(&self) -> (n: usize)
        ensures
            n == self.sources@.len(),
    {
        self.sources.len()
    }

    /// Starts every source and hands back, per source, its input id and
    /// the sender its input driver should produce into.
    pub fn start(&mut self) -> (txs: Vec<(String, Sender<Vec<i16>>)>)
        ensures
            final(self).sources@.len() == old(self).sources@.len(),
            forall|j: int|
                0 <= j < old(self).sources@.len() ==> same_params(
                    #[trigger] old(self).sources@[j],
                    final(self).sources@[j],
                ),
            forall|j: int|
                0 <= j < final(self).sources@.len() ==> (#[trigger] final(self).sources@[j]).receiver is Some,
            txs@.len() == old(self).sources@.len(),
            forall|j: int|
                0 <= j < txs@.len() ==> (#[trigger] txs@[j]).0@ == old(self).sources@[j].input_id@,
    {
        let mut txs: Vec<(String, Sender<Vec<i16>>)> = Vec::new();
        let n = self.sources.len();
        let mut j: usize = 0;
        #[verifier::loop_isolation(false)]
        while j < n
            invariant
                0 <= j <= n,
                self.sources@.len() == n,
                txs@.len() == j,
                forall|k: int|
                    0 <= k < n ==> same_params(
                        #[trigger] old(self).sources@[k],
                        self.sources@[k],
                    ),
                forall|k: int|
                    j <= k < n ==> #[trigger] self.sources@[k] == old(self).sources@[k],
                forall|k: int|
                    0 <= k < j ==> (#[trigger] self.sources@[k]).receiver is Some,
                forall|k: int|
                    0 <= k < j ==> (#[trigger] txs@[k]).0@ == old(self).sources@[k].input_id@,
            decreases n - j,
        {
            let id = self.sources[j].input_id.clone();
            let tx = self.sources[j].start();
            txs.push((id, tx));
            j = j + 1;
        }
        txs
    }

    /// Stops every source: queues are dropped, producers see the closed
    /// queues and exit.
    pub fn stop(&mut self)
        ensures
            final(self).sources@.len() == old(self).sources@.len(),
            forall|j: int|
                0 <= j < final(self).sources@.len() ==> (#[trigger] final(self).sources@[j]).receiver is None,
    {
        let n = self.sources.len();
        let mut j: usize = 0;
        #[verifier::loop_isolation(false)]
        while j < n
            invariant
                0 <= j <= n,
                self.sources@.len() == n,
                forall|k: int| 0 <= k < j ==> (#[trigger] self.sources@[k]).receiver is None,
            decreases n - j,
        {
            self.sources[j].stop();
            j = j + 1;
        }
    }

    /// One mixing round. Polls every source without blocking; when none
    /// has data, returns nothing (the caller retries after a pause).
    /// Otherwise returns the buffer that `mix_spec` describes over the
    /// refreshed sources: each fresh source's samples scaled by its
    /// effective gain, summed, and clamped to the 16-bit range.
    pub fn mix_next(&mut self) -> (r: Option<Vec<i16>>)
        ensures
            final(self).sources@.len() == old(self).sources@.len(),
            forall|j: int|
                0 <= j < old(self).sources@.len() ==> same_params(
                    #[trigger] old(self).sources@[j],
                    final(self).sources@[j],
                ),
            forall|j: int|
                0 <= j < old(self).sources@.len() ==> ((#[trigger] old(self).sources@[j]).receiver
                    is Some <==> final(self).sources@[j].receiver is Some),
            forall|j: int|
                0 <= j < old(self).sources@.len() ==> ((#[trigger] old(self).sources@[j]).pending
                    ==> final(self).sources@[j].fresh && final(self).sources@[j].buffer@ == old(self).sources@[j].buffer@),
            forall|j: int|
                0 <= j < old(self).sources@.len() ==> (!(#[trigger] old(self).sources@[j]).pending
                    && old(self).sources@[j].receiver is None ==> !final(self).sources@[j].fresh),
            forall|j: int|
                0 <= j < final(self).sources@.len() ==> ((#[trigger] final(self).sources@[j]).fresh
                    ==> final(self).sources@[j].is_active == !buffer_silent(
                    final(self).sources@[j].buffer@,
                )),
            (r is Some) == any_fresh(final(self).sources@),
            match r {
                Some(buf) => buf@ == mix_spec(final(self).sources@),
                None => true,
            },
    {
        let n = self.sources.len();
        let mut j: usize = 0;
        #[verifier::loop_isolation(false)]
        while j < n
            invariant
                0 <= j <= n,
                self.sources@.len() == n,
                forall|k: int|
                    0 <= k < n ==> same_params(
                        #[trigger] old(self).sources@[k],
                        self.sources@[k],
                    ),
                forall|k: int|
                    j <= k < n ==> #[trigger] self.sources@[k] == old(self).sources@[k],
                forall|k: int|
                    0 <= k < j ==> ((#[trigger] self.sources@[k]).fresh ==> self.sources@[k].is_active
                        == !buffer_silent(self.sources@[k].buffer@)),
                forall|k: int|
                    0 <= k < j ==> ((#[trigger] old(self).sources@[k]).receiver is Some <==> self
                        .sources@[k].receiver is Some),
                forall|k: int|
                    0 <= k < j ==> ((#[trigger] old(self).sources@[k]).pending ==> self.sources@[k].fresh && self.sources@[k].buffer@ == old(self).sources@[k].buffer@),
                forall|k: int|
                    0 <= k < j ==> (!(#[trigger] old(self).sources@[k]).pending && old(self).sources@[k].receiver is None ==> !self.sources@[k].fresh),
            decreases n - j,
        {
            self.sources[j].poll();
            j = j + 1;
        }
        let ghost ss = self.sources@;
        let mut has_fresh = false;
        let mut j: usize = 0;
        #[verifier::loop_isolation(false)]
        while j < n
            invariant
                0 <= j <= n,
                self.sources@ == ss,
                ss.len() == n,
                has_fresh == exists|k: int| 0 <= k < j && (#[trigger] ss[k]).fresh,
            decreases n - j,
        {
            if self.sources[j].fresh {
                has_fresh = true;
            }
            j = j + 1;
        }
        if !has_fresh {
            proof {
                assert(!any_fresh(ss));
            }
            return None;
        }
        let mut ap = false;
        let mut j: usize = 0;
        #[verifier::loop_isolation(false)]
        while j < n
            invariant
                0 <= j <= n,
                self.sources@ == ss,
                ss.len() == n,
                ap == exists|k: int|
                    0 <= k < j && (#[trigger] ss[k]).duck_priority && ss[k].is_active,
            decreases n - j,
        {
            if self.sources[j].duck_priority && self.sources[j].is_active {
                ap = true;
            }
            j = j + 1;
        }
        proof {
            assert(ap == priority_active(ss));
        }
        let mut out_len: usize = 0;
        let mut j: usize = 0;
        #[verifier::loop_isolation(false)]
        while j < n
            invariant
                0 <= j <= n,
                self.sources@ == ss,
                ss.len() == n,
                out_len as int == mix_len(ss.take(j as int)),
            decreases n - j,
        {
            proof {
                assert(ss.take(j as int + 1).drop_last() =~= ss.take(j as int));
                assert(ss.take(j as int + 1).last() == ss[j as int]);
            }
            if self.sources[j].fresh && self.sources[j].buffer.len() > out_len {
                out_len = self.sources[j].buffer.len();
            }
            j = j + 1;
        }
        proof {
            assert(ss.take(n as int) =~= ss);
        }
        let mut out: Vec<i16> = Vec::new();
        let mut i: usize = 0;
        #[verifier::loop_isolation(false)]
        while i < out_len
            invariant
                0 <= i <= out_len,
                self.sources@ == ss,
                ss.len() == n,
                ap == priority_active(ss),
                out_len as int == mix_len(ss),
                out@.len() == i,
                forall|x: int| 0 <= x < i ==> out@[x] as int == mixed_value(ss, x),
            decreases out_len - i,
        {
            let mut acc: i128 = 0;
            let mut j: usize = 0;
            #[verifier::loop_isolation(false)]
            while j < n
                invariant
                    0 <= j <= n,
                    self.sources@ == ss,
                    ss.len() == n,
                    ap == priority_active(ss),
                    0 <= i < out_len,
                    acc as int == sum_terms(ss, ap, i as int, j as int),
                    -400000 * (j as int) <= acc as int <= 400000 * (j as int),
                decreases n - j,
            {
                if self.sources[j].fresh && i < self.sources[j].buffer.len() {
                    let s_gain = self.sources[j].gain_mb;
                    let s_duck = self.sources[j].duck_mb;
                    let s_pri = self.sources[j].duck_priority;
                    let eff: i64 = if ap && !s_pri {
                        (s_gain as i64) - (s_duck as i64)
                    } else {
                        s_gain as i64
                    };
                    let eff32: i32 = if eff < MB_MIN as i64 {
                        MB_MIN
                    } else if eff > MB_MAX as i64 {
                        MB_MAX
                    } else {
                        eff as i32
                    };
                    proof {
                        assert(lin_of_mb(eff32 as int) == lin_of_mb(
                            effective_gain_mb(ss[j as int], ap),
                        ));
                        crate::gain::lemma_lin_of_mb_bounds(eff32 as int);
                    }
                    let g = db_to_lin(eff32);
                    let term = scale(self.sources[j].buffer[i], g);
                    acc = acc + (term as i128);
                } else {
                    proof {
                        assert(source_term(ss[j as int], ap, i as int) == 0);
                    }
                }
                j = j + 1;
            }
            let v: i16 = if acc > 32767 {
                32767
            } else if acc < -32768 {
                -32768
            } else {
                acc as i16
            };
            proof {
                assert(v as int == mixed_value(ss, i as int));
            }
            out.push(v);
            i = i + 1;
        }
        proof {
            assert(out@ =~= mix_spec(ss));
        }
        Some(out)
    }
}

/// Scaling is monotone in the gain factor: a larger factor never moves a
/// sample's scaled value toward zero less than a smaller one.
pub proof fn lemma_scale_monotone(s: int, g1: int, g2: int)
    requires
        0 <= g1 <= g2,
    ensures
        s >= 0 ==> 0 <= scale_sample(s, g1) <= scale_sample(s, g2),
        s < 0 ==> scale_sample(s, g2) <= scale_sample(s, g1) <= 0,
{
    if s >= 0 {
        assert(s * g1 <= s * g2) by (nonlinear_arith)
            requires
                s >= 0,
                g1 <= g2,
        ;
        assert(s * g1 >= 0) by (nonlinear_arith)
            requires
                s >= 0,
                g1 >= 0,
        ;
        vstd::arithmetic::div_mod::lemma_div_is_ordered(s * g1, s * g2, LIN_ONE as int);
        vstd::arithmetic::div_mod::lemma_div_pos_is_pos(s * g1, LIN_ONE as int);
    } else {
        assert((-s) * g1 <= (-s) * g2) by (nonlinear_arith)
            requires
                s < 0,
                g1 <= g2,
        ;
        assert((-s) * g1 >= 0) by (nonlinear_arith)
            requires
                s < 0,
                g1 >= 0,
        ;
        vstd::arithmetic::div_mod::lemma_div_is_ordered((-s) * g1, (-s) * g2, LIN_ONE as int);
        vstd::arithmetic::div_mod::lemma_div_pos_is_pos((-s) * g1, LIN_ONE as int);
    }
}

/// Ducking only ever attenuates: while a priority source is active, a
/// fresh non-priority source with a non-negative duck amount contributes
/// no more, in magnitude, than it would contribute undisturbed, and on
/// the same side of zero.
pub proof fn lemma_ducking_never_amplifies(s: Source, i: int)
    requires
        !s.duck_priority,
        s.duck_mb >= 0,
        s.fresh,
        0 <= i < s.buffer@.len(),
    ensures
        s.buffer@[i] >= 0 ==> 0 <= source_term(s, true, i) <= source_term(s, false, i),
        s.buffer@[i] < 0 ==> source_term(s, false, i) <= source_term(s, true, i) <= 0,
{
    crate::gain::lemma_lin_of_mb_monotone(s.gain_mb - s.duck_mb, s.gain_mb as int);
    crate::gain::lemma_lin_of_mb_bounds(s.gain_mb - s.duck_mb);
    lemma_scale_monotone(
        s.buffer@[i] as int,
        lin_of_mb(s.gain_mb - s.duck_mb),
        lin_of_mb(s.gain_mb as int),
    );
}

} // verus!
