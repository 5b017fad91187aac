use vstd::prelude::*;
use vstd::string::StringExecFns;
use crate::textfmt::{dec_of, hundredths_rendering, hundredths_to_string, u64_to_string};
use vstd::arithmetic::div_mod::{
    lemma_basic_div, lemma_div_decreases, lemma_div_is_ordered, lemma_div_multiples_vanish_fancy,
    lemma_div_pos_is_pos,
};

verus! {

/// Mathematical model of a per-connection sequence tracker.
#[verifier::ext_equal]
pub struct TrackerModel {
    /// Number of probe messages successfully tracked so far.
    pub received: int,
    /// The most recently observed sequence number.
    pub last: int,
    /// Every individual sequence value inferred as missing, in order of inference.
    pub missed: Seq<int>,
    /// Running count of inferred-missing values; always `missed.len()`.
    pub total: int,
}

/// The state of a tracker that has seen no probe messages yet.
pub open spec fn fresh_model() -> TrackerModel {
    TrackerModel { received: 0, last: 0, missed: Seq::empty(), total: 0 }
}

/// How many sequence values lie strictly between the previously observed
/// sequence number and `seq`. The first observation anchors the stream and
/// never yields a gap; neither does a repeated or non-increasing value.
pub open spec fn gap_count(t: TrackerModel, seq: int) -> int {
    if t.received >= 1 && seq > t.last + 1 {
        seq - t.last - 1
    } else {
        0
    }
}

/// The sequence values inferred as missing by an update with `seq`:
/// the integers strictly between the previous `last` and `seq`, ascending.
pub open spec fn missing_between(t: TrackerModel, seq: int) -> Seq<int> {
    Seq::new(gap_count(t, seq) as nat, |i: int| t.last + 1 + i)
}

/// One update step of the tracker: count the message, append the inferred
/// gap (if any), and advance `last` to `seq` unconditionally — even when
/// `seq` is not larger than the previous value.
pub open spec fn spec_update(t: TrackerModel, seq: int) -> TrackerModel {
    TrackerModel {
        received: t.received + 1,
        last: seq,
        missed: t.missed + missing_between(t, seq),
        total: t.total + gap_count(t, seq),
    }
}

/// Loss ratio in hundredths of a percent, rounded to nearest (half away
/// from zero): `round(total / (received + total) * 10000)`, and `0` when
/// the tracker has seen nothing and inferred nothing.
pub open spec fn loss_hundredths(t: TrackerModel) -> int {
    let den = t.received + t.total;
    if den == 0 {
        0
    } else {
        (t.total * 10000 + den / 2) / den
    }
}

/// Per-connection statistics: how many probe messages arrived, which
/// sequence number came last, and which sequence values never arrived.
#[derive(Debug)]
pub struct ConnectionStats {
    pub messages_received: u64,
    pub last_sequence: u64,
    pub missed_sequences: Vec<u64>,
    pub total_missed: u64,
}

impl View for ConnectionStats {
    type V = TrackerModel;

    open spec fn view(&self) -> TrackerModel {
        TrackerModel {
            received: self.messages_received as int,
            last: self.last_sequence as int,
            missed: self.missed_sequences@.map_values(|v: u64| v as int),
            total: self.total_missed as int,
        }
    }
}

impl ConnectionStats {
    /// The recorded miss count always equals the length of the recorded list.
    pub open spec fn wf(&self) -> bool {
        self.total_missed as int == self.missed_sequences@.len()
    }

    /// A fresh tracker: nothing received, nothing missed, anchor not yet set.
    pub fn new() -> (r: Self)
        ensures
            r.wf(),
            r@ == fresh_model(),
    {
        let r = ConnectionStats {
            messages_received: 0,
            last_sequence: 0,
            missed_sequences: Vec::new(),
            total_missed: 0,
        };
        proof {
            assert(r@.missed =~= fresh_model().missed);
            assert(r@ =~= fresh_model());
        }
        r
    }

    /// Ingest one probe sequence number, recording every value strictly
    /// between the previous `last_sequence` and `seq` as missed. The two
    /// bounds in the precondition are forced by the machine word: the
    /// message counter and the miss counter must not wrap.
    pub fn update(&mut self, seq: u64)
        requires
            old(self).wf(),
            old(self).messages_received < u64::MAX,
            old(self).total_missed + gap_count(old(self)@, seq as int) <= u64::MAX,
        ensures
            final(self).wf(),
            final(self)@ == spec_update(old(self)@, seq as int),
    {
        let ghost last0: int = self.last_sequence as int;
        let ghost gap: int = gap_count(old(self)@, seq as int);
        self.messages_received = self.messages_received + 1;
        if self.messages_received > 1 {
            if seq > self.last_sequence {
                let mut v: u64 = self.last_sequence + 1;
                while v < seq
                    invariant
                        last0 < v <= seq,
                        gap == gap_count(old(self)@, seq as int),
                        gap == seq - last0 - 1,
                        self.messages_received == old(self).messages_received + 1,
                        self.last_sequence == old(self).last_sequence,
                        self.last_sequence as int == last0,
                        old(self).total_missed + gap <= u64::MAX,
                        self.total_missed == old(self).total_missed + (v - last0 - 1),
                        self.missed_sequences@ == old(self).missed_sequences@ + Seq::new(
                            (v - last0 - 1) as nat,
                            |i: int| (last0 + 1 + i) as u64,
                        ),
                    decreases seq - v,
                {
                    self.missed_sequences.push(v);
                    self.total_missed = self.total_missed + 1;
                    proof {
                        assert(self.missed_sequences@ =~= old(self).missed_sequences@ + Seq::new(
                            (v + 1 - last0 - 1) as nat,
                            |i: int| (last0 + 1 + i) as u64,
                        ));
                    }
                    v = v + 1;
                }
            }
        }
        self.last_sequence = seq;
        proof {
            assert(self@.missed =~= old(self)@.missed + missing_between(old(self)@, seq as int));
            assert(self@ =~= spec_update(old(self)@, seq as int));
        }
    }

    /// The loss ratio in hundredths of a percent, computed exactly:
    /// `round(total_missed / (messages_received + total_missed) * 10000)`,
    /// and `0` when the denominator is zero.
    pub fn packet_loss_hundredths(&self) -> (r: u64)
        ensures
            r == loss_hundredths(self@),
            r <= 10000,
    {
        let den: u128 = self.messages_received as u128 + self.total_missed as u128;
        if den == 0 {
            0
        } else {
            let num: u128 = self.total_missed as u128 * 10000 + den / 2;
            let q: u128 = num / den;
            proof {
                lemma_loss_percentage_bounds(self@);
            }
            q as u64
        }
    }

    /// The fixed-format multi-line statistics block: total received, total
    /// missed, loss percentage with two decimal places, and the last
    /// sequence number.
    pub fn get_stats_message(&self) -> (r: String)
        ensures
            r@ == stats_message_of(self@),
    {
        let mut s = String::from_str("Packet Loss Stats:\nTotal Messages Received: ");
        s.append(u64_to_string(self.messages_received).as_str());
        s.append("\nTotal Messages Missed: ");
        s.append(u64_to_string(self.total_missed).as_str());
        s.append("\nPacket Loss Percentage: ");
        s.append(hundredths_to_string(self.packet_loss_hundredths()).as_str());
        s.append("%\nLast Sequence Number: ");
        s.append(u64_to_string(self.last_sequence).as_str());
        proof {
            assert(s@ =~= stats_message_of(self@));
        }
        s
    }
}

/// The exact text of the statistics block for a tracker in state `t`.
pub open spec fn stats_message_of(t: TrackerModel) -> Seq<char> {
    "Packet Loss Stats:\nTotal Messages Received: "@ + dec_of(t.received as nat)
        + "\nTotal Messages Missed: "@ + dec_of(t.total as nat)
        + "\nPacket Loss Percentage: "@ + hundredths_rendering(loss_hundredths(t) as nat)
        + "%\nLast Sequence Number: "@ + dec_of(t.last as nat)
}

/// The tracker state after a whole run of updates, starting from fresh.
pub open spec fn run_updates(s: Seq<int>) -> TrackerModel
    decreases s.len(),
{
    if s.len() == 0 {
        fresh_model()
    } else {
        spec_update(run_updates(s.drop_last()), s.last())
    }
}

/// The sum, over a whole run of updates, of the number of integers strictly
/// between each previously observed sequence number and the one ingested.
pub open spec fn sum_gaps(s: Seq<int>) -> int
    decreases s.len(),
{
    if s.len() == 0 {
        0
    } else {
        sum_gaps(s.drop_last()) + gap_count(run_updates(s.drop_last()), s.last())
    }
}

/// Law: after any sequence of updates on a fresh tracker, `total` equals the
/// count of integers strictly between each consecutive pair (previous `last`,
/// new value), summed over all calls after the first, and also equals the
/// length of the recorded list of missing values.
pub proof fn lemma_total_missed_is_sum_of_gaps(s: Seq<int>)
    ensures
        run_updates(s).total == sum_gaps(s),
        run_updates(s).total == run_updates(s).missed.len(),
    decreases s.len(),
{
    if s.len() > 0 {
        lemma_total_missed_is_sum_of_gaps(s.drop_last());
    }
}

/// Law: the first update on a fresh tracker records no missing sequences,
/// whatever sequence value it carries.
pub proof fn lemma_first_update_records_nothing(seq: int)
    ensures
        spec_update(fresh_model(), seq).missed =~= Seq::<int>::empty(),
        spec_update(fresh_model(), seq).total == 0,
{
}

/// Whether a sequence of values never decreases from one to the next.
pub open spec fn non_decreasing(s: Seq<int>) -> bool {
    forall|i: int, j: int| 0 <= i <= j < s.len() ==> s[i] <= s[j]
}

/// Whether a sequence of values strictly increases from one to the next.
pub open spec fn strictly_increasing(s: Seq<int>) -> bool {
    forall|i: int, j: int| 0 <= i < j < s.len() ==> s[i] < s[j]
}

/// Law: as long as the observed sequence numbers never decrease, the
/// recorded missing values are strictly increasing — each inferred value is
/// recorded exactly once, in ascending order, and always below the current
/// anchor. (A stream that jumps backwards overwrites the anchor and may
/// re-record values; that input is excluded here on purpose.)
pub proof fn lemma_ordered_run_has_distinct_misses(s: Seq<int>)
    requires
        non_decreasing(s),
    ensures
        strictly_increasing(run_updates(s).missed),
        forall|i: int|
            0 <= i < run_updates(s).missed.len() ==> #[trigger] run_updates(s).missed[i]
                < run_updates(s).last,
        run_updates(s).received == s.len(),
        s.len() > 0 ==> run_updates(s).last == s.last(),
    decreases s.len(),
{
    if s.len() > 0 {
        let s0 = s.drop_last();
        let x = s.last();
        assert forall|i: int, j: int| 0 <= i <= j < s0.len() implies s0[i] <= s0[j] by {
            assert(s[i] <= s[j]);
        }
        lemma_ordered_run_has_distinct_misses(s0);
        let r0 = run_updates(s0);
        let r = run_updates(s);
        let m0 = r0.missed;
        let g = gap_count(r0, x);
        if s0.len() > 0 {
            assert(s0[s0.len() - 1] == s[s.len() - 2]);
            assert(s[s.len() - 2] <= s[s.len() - 1]);
            assert(r0.last <= x);
        }
        assert(r.missed == m0 + missing_between(r0, x));
        assert forall|i: int, j: int| 0 <= i < j < r.missed.len() implies r.missed[i]
            < r.missed[j] by {
            if j < m0.len() {
                assert(r.missed[i] == m0[i] && r.missed[j] == m0[j]);
            } else if i >= m0.len() {
                assert(r.missed[i] == r0.last + 1 + (i - m0.len()));
                assert(r.missed[j] == r0.last + 1 + (j - m0.len()));
            } else {
                assert(r.missed[i] == m0[i] && m0[i] < r0.last);
                assert(r.missed[j] == r0.last + 1 + (j - m0.len()));
            }
        }
        assert forall|i: int| 0 <= i < r.missed.len() implies #[trigger] r.missed[i] < r.last by {
            if i < m0.len() {
                assert(r.missed[i] == m0[i] && m0[i] < r0.last);
            } else {
                assert(r.missed[i] == r0.last + 1 + (i - m0.len()));
                assert(i - m0.len() < g);
            }
        }
    }
}

/// Law: the loss ratio is zero on any tracker that has missed nothing (in
/// particular a fresh one); the rounded hundredths value always lies in
/// [0, 10000]; and when misses were recorded, the exact ratio
/// `total / (received + total) * 100` lies in (0, 100] — stated here
/// cross-multiplied to stay in the integers.
pub proof fn lemma_loss_percentage_bounds(t: TrackerModel)
    requires
        t.received >= 0,
        t.total >= 0,
    ensures
        t.total == 0 ==> loss_hundredths(t) == 0,
        0 <= loss_hundredths(t) <= 10000,
        t.total > 0 ==> 0 < t.total * 100 <= (t.received + t.total) * 100,
{
    let den = t.received + t.total;
    if den > 0 {
        lemma_div_decreases(den, 2);
        lemma_div_pos_is_pos(t.total * 10000 + den / 2, den);
        lemma_div_multiples_vanish_fancy(10000, den / 2, den);
        lemma_div_is_ordered(t.total * 10000 + den / 2, den * 10000 + den / 2, den);
        if t.total == 0 {
            lemma_basic_div(den / 2, den);
        }
    }
}

} // verus!
