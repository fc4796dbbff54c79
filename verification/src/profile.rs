//! Nested zone profiler: a fixed-capacity table of named measurement zones,
//! scoped measurement handles, and the parent/child attribution that splits
//! elapsed ticks into inclusive time (a zone and everything nested in it) and
//! exclusive time (the zone alone).
//!
//! The accounting is subtle: while a child zone runs, its parent's exclusive
//! timer keeps running too, so closing the child subtracts the child's whole
//! duration from the parent's exclusive accumulator. That accumulator is
//! therefore transiently "negative" (it lives modulo 2^64) and only settles
//! once every enclosing zone has closed. The ghost model below carries the
//! exact, unbounded value of every accumulator, together with the stack of
//! open zones, and the session invariant states that closing every open zone
//! right now would leave every zone with `0 <= exclusive <= inclusive`. From
//! that invariant the headline law follows: after any sequence of properly
//! nested entries and exits, once all zones are closed, every zone's
//! inclusive time is at least its exclusive time.
use vstd::prelude::*;
use vstd::pervasive::VecAdditionalExecFns;

use crate::ticks::wrap64;
use crate::ticks::lemma_wrap64_add;
use crate::ticks::lemma_wrap64_small;
use crate::ticks::lemma_wrap64_sub;

verus! {

/// One entry on the stack of currently open zones.
pub ghost struct OpenFrame {
    /// The zone's index in the table.
    pub idx: int,
    /// The tick at which this entry began.
    pub start: int,
    /// The zone's inclusive total when this entry began; closing the entry
    /// sets the inclusive total to this plus the entry's own duration, so
    /// recursive re-entries never double-count overlapping spans.
    pub old_incl: int,
}

/// Exact accounting of a profiler session: per-zone accumulators as unbounded
/// integers, the stack of open zones (outermost first), and the latest tick
/// the session has seen.
pub ghost struct ProfModel {
    /// `Some(label)` once the zone index has been registered.
    pub labels: Seq<Option<&'static str>>,
    pub excl: Seq<int>,
    pub incl: Seq<int>,
    pub hits: Seq<int>,
    pub bytes: Seq<int>,
    pub open: Seq<OpenFrame>,
    pub last: int,
}

impl ProfModel {
    pub open spec fn num_zones(self) -> int {
        self.labels.len() as int
    }

    pub open spec fn sized_ok(self) -> bool {
        &&& self.excl.len() == self.labels.len()
        &&& self.incl.len() == self.labels.len()
        &&& self.hits.len() == self.labels.len()
        &&& self.bytes.len() == self.labels.len()
    }

    /// Every open frame names a registered zone, frames were opened at
    /// non-decreasing ticks, and no frame is newer than the latest tick seen.
    pub open spec fn frames_ok(self) -> bool {
        &&& forall|j: int|
            0 <= j < self.open.len() ==> 0 <= (#[trigger] self.open[j]).idx < self.num_zones()
                && self.labels[self.open[j].idx] is Some
        &&& forall|j: int| 0 <= j < self.open.len() ==> 0 <= (#[trigger] self.open[j]).start <= self.last
        &&& forall|j: int|
            0 <= j < self.open.len() - 1 ==> (#[trigger] self.open[j]).start <= self.open[j + 1].start
    }
}

/// The model of a fresh session: `capacity` unregistered zones, all
/// accumulators zero, no open zone.
pub open spec fn init_model(capacity: int) -> ProfModel {
    ProfModel {
        labels: Seq::new(capacity as nat, |i: int| None),
        excl: Seq::new(capacity as nat, |i: int| 0),
        incl: Seq::new(capacity as nat, |i: int| 0),
        hits: Seq::new(capacity as nat, |i: int| 0),
        bytes: Seq::new(capacity as nat, |i: int| 0),
        open: Seq::empty(),
        last: 0,
    }
}

/// Entering a zone at tick `now`: registers the label on first use, credits
/// `byte_count` to the zone, and pushes an open frame recording the start
/// tick and the inclusive total at entry.
pub open spec fn begin_spec(
    m: ProfModel,
    label: &'static str,
    idx: int,
    byte_count: int,
    now: int,
) -> ProfModel {
    ProfModel {
        labels: m.labels.update(idx, if m.labels[idx] is Some {
            m.labels[idx]
        } else {
            Some(label)
        }),
        bytes: m.bytes.update(idx, m.bytes[idx] + byte_count),
        open: m.open.push(OpenFrame { idx, start: now, old_incl: m.incl[idx] }),
        last: now,
        ..m
    }
}

/// Closing the innermost open zone at tick `now`: the elapsed time of this
/// entry is subtracted from the parent zone's exclusive accumulator (whose
/// own timer ran through the whole nested entry), added to this zone's
/// exclusive accumulator, and the inclusive total becomes the value at entry
/// plus this entry's duration. The hit count grows by one.
pub open spec fn end_spec(m: ProfModel, now: int) -> ProfModel {
    let f = m.open.last();
    let elapsed = now - f.start;
    let deducted = if m.open.len() >= 2 {
        let p = m.open[m.open.len() - 2].idx;
        m.excl.update(p, m.excl[p] - elapsed)
    } else {
        m.excl
    };
    ProfModel {
        excl: deducted.update(f.idx, deducted[f.idx] + elapsed),
        incl: m.incl.update(f.idx, f.old_incl + elapsed),
        hits: m.hits.update(f.idx, m.hits[f.idx] + 1),
        open: m.open.drop_last(),
        last: now,
        ..m
    }
}

/// The model after closing every open zone at tick `t`, innermost first.
pub open spec fn vclose(m: ProfModel, t: int) -> ProfModel
    decreases m.open.len(),
{
    if m.open.len() == 0 {
        m
    } else {
        vclose(end_spec(m, t), t)
    }
}

/// How many open frames belong to zone `i`.
pub open spec fn cnt_own(open: Seq<OpenFrame>, i: int) -> int
    decreases open.len(),
{
    if open.len() == 0 {
        0
    } else {
        cnt_own(open.drop_last(), i) + if open.last().idx == i {
            1int
        } else {
            0
        }
    }
}

/// The sum of the start ticks of zone `i`'s open frames.
pub open spec fn sum_own(open: Seq<OpenFrame>, i: int) -> int
    decreases open.len(),
{
    if open.len() == 0 {
        0
    } else {
        sum_own(open.drop_last(), i) + if open.last().idx == i {
            open.last().start
        } else {
            0
        }
    }
}

/// How many open frames sit directly above a frame of zone `i`: each one will
/// charge its whole duration against zone `i`'s exclusive total when it
/// closes.
pub open spec fn cnt_ded(open: Seq<OpenFrame>, i: int) -> int
    decreases open.len(),
{
    if open.len() <= 1 {
        0
    } else {
        cnt_ded(open.drop_last(), i) + if open[open.len() - 2].idx == i {
            1int
        } else {
            0
        }
    }
}

/// The sum of the start ticks of the frames counted by `cnt_ded`.
pub open spec fn sum_ded(open: Seq<OpenFrame>, i: int) -> int
    decreases open.len(),
{
    if open.len() <= 1 {
        0
    } else {
        sum_ded(open.drop_last(), i) + if open[open.len() - 2].idx == i {
            open.last().start
        } else {
            0
        }
    }
}

/// Zone `i`'s outermost open frame, if any: the one whose closing determines
/// the zone's final inclusive total.
pub open spec fn outer_frame(open: Seq<OpenFrame>, i: int) -> Option<OpenFrame>
    decreases open.len(),
{
    if open.len() == 0 {
        None
    } else {
        let rest = outer_frame(open.drop_last(), i);
        if rest is Some {
            rest
        } else if open.last().idx == i {
            Some(open.last())
        } else {
            None
        }
    }
}

/// The session invariant: well-shaped, and closing every open zone at the
/// latest tick seen would leave every zone with a non-negative exclusive
/// total no larger than its inclusive total.
pub open spec fn model_inv(m: ProfModel) -> bool {
    &&& m.sized_ok()
    &&& m.frames_ok()
    &&& 0 <= m.last <= u64::MAX
    &&& forall|i: int| 0 <= i < m.num_zones() ==> #[trigger] vclose(m, m.last).excl[i] >= 0
    &&& forall|i: int|
        0 <= i < m.num_zones() ==> vclose(m, m.last).incl[i] >= #[trigger] vclose(
            m,
            m.last,
        ).excl[i]
}

/// Closing every open zone at tick `t` changes zone `i`'s totals by a closed
/// form: each of the zone's own open frames contributes its duration
/// `t - start`, each open frame directly above one of them charges its
/// duration back, and the inclusive total is decided by the zone's outermost
/// open frame.
proof fn lemma_vclose_form(m: ProfModel, t: int, i: int)
    requires
        m.sized_ok(),
        0 <= i < m.num_zones(),
        forall|j: int| 0 <= j < m.open.len() ==> 0 <= (#[trigger] m.open[j]).idx < m.num_zones(),
    ensures
        vclose(m, t).sized_ok(),
        vclose(m, t).labels == m.labels,
        vclose(m, t).open.len() == 0,
        vclose(m, t).excl[i] == m.excl[i] + cnt_own(m.open, i) * t - sum_own(m.open, i) - cnt_ded(
            m.open,
            i,
        ) * t + sum_ded(m.open, i),
        vclose(m, t).incl[i] == (match outer_frame(m.open, i) {
            Some(f) => f.old_incl + (t - f.start),
            None => m.incl[i],
        }),
    decreases m.open.len(),
{
    if m.open.len() == 0 {
    } else {
        let m1 = end_spec(m, t);
        assert(m1.open =~= m.open.drop_last());
        let top = m.open.last();
        let e = t - top.start;
        lemma_vclose_form(m1, t, i);
        assert(cnt_own(m.open, i) == cnt_own(m1.open, i) + if top.idx == i {
            1int
        } else {
            0
        });
        assert(sum_own(m.open, i) == sum_own(m1.open, i) + if top.idx == i {
            top.start
        } else {
            0
        });
        if top.idx == i {
            assert((cnt_own(m1.open, i) + 1) * t == cnt_own(m1.open, i) * t + t)
                by (nonlinear_arith);
        }
        if m.open.len() >= 2 {
            let p = m.open[m.open.len() - 2].idx;
            assert(cnt_ded(m.open, i) == cnt_ded(m1.open, i) + if p == i {
                1int
            } else {
                0
            });
            assert(sum_ded(m.open, i) == sum_ded(m1.open, i) + if p == i {
                top.start
            } else {
                0
            });
            if p == i {
                assert((cnt_ded(m1.open, i) + 1) * t == cnt_ded(m1.open, i) * t + t)
                    by (nonlinear_arith);
            }
        } else {
            assert(cnt_ded(m.open, i) == cnt_ded(m1.open, i));
            assert(sum_ded(m.open, i) == sum_ded(m1.open, i));
        }
    }
}

/// A zone has exactly one more open frame than frames directly above its open
/// frames when it is the innermost open zone, and the same number otherwise;
/// and it has an outermost open frame exactly when it has any.
proof fn lemma_cnt_balance(open: Seq<OpenFrame>, i: int)
    ensures
        cnt_own(open, i) - cnt_ded(open, i) == if open.len() > 0 && open.last().idx == i {
            1int
        } else {
            0
        },
        cnt_own(open, i) >= 0,
        (cnt_own(open, i) > 0) <==> (outer_frame(open, i) is Some),
    decreases open.len(),
{
    if open.len() == 0 {
    } else {
        lemma_cnt_balance(open.drop_last(), i);
        if open.len() >= 2 {
            assert(open.drop_last().last() == open[open.len() - 2]);
        }
    }
}

/// Raising the virtual closing tick never lowers a zone's exclusive total and
/// never shrinks the gap between its inclusive and exclusive totals.
proof fn lemma_vclose_monotone(m: ProfModel, t1: int, t2: int, i: int)
    requires
        m.sized_ok(),
        0 <= i < m.num_zones(),
        forall|j: int| 0 <= j < m.open.len() ==> 0 <= (#[trigger] m.open[j]).idx < m.num_zones(),
        forall|j: int| 0 <= j < m.open.len() ==> (#[trigger] m.open[j]).start <= t1,
        t1 <= t2,
    ensures
        vclose(m, t2).excl[i] >= vclose(m, t1).excl[i],
        vclose(m, t2).incl[i] - vclose(m, t2).excl[i] >= vclose(m, t1).incl[i] - vclose(
            m,
            t1,
        ).excl[i],
{
    lemma_vclose_form(m, t1, i);
    lemma_vclose_form(m, t2, i);
    lemma_cnt_balance(m.open, i);
    let co = cnt_own(m.open, i);
    let cd = cnt_ded(m.open, i);
    assert(co * t2 - cd * t2 - (co * t1 - cd * t1) == (co - cd) * (t2 - t1)) by (nonlinear_arith);
    if m.open.len() > 0 && m.open.last().idx == i {
        assert(outer_frame(m.open, i) is Some);
    }
}

/// Entering a zone preserves the session invariant.
pub proof fn lemma_begin_preserves_inv(
    m: ProfModel,
    label: &'static str,
    idx: int,
    byte_count: int,
    now: int,
)
    requires
        model_inv(m),
        0 <= idx < m.num_zones(),
        m.last <= now <= u64::MAX,
    ensures
        model_inv(begin_spec(m, label, idx, byte_count, now)),
{
    let m2 = begin_spec(m, label, idx, byte_count, now);
    assert forall|j: int|
        0 <= j < m2.open.len() implies 0 <= (#[trigger] m2.open[j]).idx < m2.num_zones()
        && m2.labels[m2.open[j].idx] is Some by {
        if j < m.open.len() {
            assert(m2.open[j] == m.open[j]);
        }
    }
    // Closing the freshly pushed frame at its own start tick is a no-op on
    // the timing accumulators, so the virtual close of the new state at `now`
    // agrees with the virtual close of the old state at `now`.
    let m3 = end_spec(m2, now);
    assert(m3.open =~= m.open);
    assert(m3.excl =~= m.excl);
    assert(m3.incl =~= m.incl);
    assert(vclose(m2, now) == vclose(m3, now));
    assert forall|i: int| 0 <= i < m2.num_zones() implies #[trigger] vclose(m2, m2.last).excl[i]
        >= 0 && vclose(m2, m2.last).incl[i] >= vclose(m2, m2.last).excl[i] by {
        lemma_vclose_form(m3, now, i);
        lemma_vclose_form(m, now, i);
        lemma_vclose_monotone(m, m.last, now, i);
        assert(vclose(m, m.last).excl[i] >= 0);
        assert(vclose(m, m.last).incl[i] >= vclose(m, m.last).excl[i]);
    }
}

/// Closing the innermost zone preserves the session invariant.
pub proof fn lemma_end_preserves_inv(m: ProfModel, now: int)
    requires
        model_inv(m),
        m.open.len() > 0,
        m.last <= now <= u64::MAX,
    ensures
        model_inv(end_spec(m, now)),
{
    let m2 = end_spec(m, now);
    assert(m2.open =~= m.open.drop_last());
    assert forall|j: int|
        0 <= j < m2.open.len() implies 0 <= (#[trigger] m2.open[j]).idx < m2.num_zones()
        && m2.labels[m2.open[j].idx] is Some by {
        assert(m2.open[j] == m.open[j]);
    }
    assert(vclose(m, now) == vclose(m2, now));
    assert forall|i: int| 0 <= i < m2.num_zones() implies #[trigger] vclose(m2, m2.last).excl[i]
        >= 0 && vclose(m2, m2.last).incl[i] >= vclose(m2, m2.last).excl[i] by {
        lemma_vclose_monotone(m, m.last, now, i);
        assert(vclose(m, m.last).excl[i] >= 0);
        assert(vclose(m, m.last).incl[i] >= vclose(m, m.last).excl[i]);
    }
}

/// A fresh session satisfies the invariant.
pub proof fn lemma_init_inv(capacity: int)
    requires
        0 <= capacity,
    ensures
        model_inv(init_model(capacity)),
{
    let m = init_model(capacity);
    assert(vclose(m, m.last) == m);
}

/// Law: after any sequence of properly nested zone entries and exits, once no
/// zone remains open, every zone's inclusive total is at least its exclusive
/// total, and both are non-negative. Every session operation preserves
/// `model_inv`, so this holds of every quiescent reachable state.
pub proof fn lemma_inclusive_ge_exclusive(m: ProfModel, i: int)
    requires
        model_inv(m),
        m.open.len() == 0,
        0 <= i < m.num_zones(),
    ensures
        m.incl[i] >= m.excl[i] >= 0,
{
    assert(vclose(m, m.last) == m);
}

/// Law: a top-level zone wrapping exactly one entry of one child zone ends
/// with `exclusive(parent) == inclusive(parent) - inclusive(child)`, whatever
/// the four ticks were. Both zones start fresh (no prior accumulation).
pub proof fn lemma_parent_child_attribution(
    m0: ProfModel,
    parent_label: &'static str,
    child_label: &'static str,
    p: int,
    c: int,
    t0: int,
    t1: int,
    t2: int,
    t3: int,
)
    requires
        model_inv(m0),
        m0.open.len() == 0,
        0 <= p < m0.num_zones(),
        0 <= c < m0.num_zones(),
        p != c,
        m0.excl[p] == 0 && m0.incl[p] == 0 && m0.excl[c] == 0 && m0.incl[c] == 0,
        m0.last <= t0 <= t1 <= t2 <= t3,
    ensures
        ({
            let m = end_spec(
                end_spec(begin_spec(begin_spec(m0, parent_label, p, 0, t0), child_label, c, 0, t1), t2),
                t3,
            );
            &&& m.excl[p] == m.incl[p] - m.incl[c]
            &&& m.incl[p] == t3 - t0
            &&& m.incl[c] == t2 - t1
            &&& m.excl[c] == t2 - t1
        }),
{
    let m1 = begin_spec(m0, parent_label, p, 0, t0);
    let m2 = begin_spec(m1, child_label, c, 0, t1);
    let m3 = end_spec(m2, t2);
    let m4 = end_spec(m3, t3);
    assert(m3.open =~= m0.open.push(OpenFrame { idx: p, start: t0, old_incl: 0 }));
    assert(m4.excl[p] == (t3 - t0) - (t2 - t1));
    assert(m4.incl[p] == t3 - t0);
    assert(m4.incl[c] == t2 - t1);
}

/// Law: a zone entered twice without nesting accumulates, in both its
/// exclusive and its inclusive total, exactly the sum of the two durations.
pub proof fn lemma_unnested_entries_sum(
    m0: ProfModel,
    label: &'static str,
    z: int,
    t0: int,
    t1: int,
    t2: int,
    t3: int,
)
    requires
        model_inv(m0),
        m0.open.len() == 0,
        0 <= z < m0.num_zones(),
        m0.excl[z] == 0 && m0.incl[z] == 0,
        m0.last <= t0 <= t1 <= t2 <= t3,
    ensures
        ({
            let m = end_spec(begin_spec(end_spec(begin_spec(m0, label, z, 0, t0), t1), label, z, 0, t2), t3);
            &&& m.excl[z] == (t1 - t0) + (t3 - t2)
            &&& m.incl[z] == (t1 - t0) + (t3 - t2)
        }),
{
}

/// One measurement zone's accumulated totals as stored: each field is the
/// exact model value reduced modulo 2^64, so on any run whose totals fit in
/// 64 bits the stored numbers are exact.
#[derive(Clone, Copy, Debug)]
pub struct TimeRecord {
    pub label: &'static str,
    /// Ticks spent in this zone excluding nested child zones.
    pub elapsed_exclusive: u64,
    /// Ticks spent in this zone including nested child zones; grows by each
    /// outermost entry's wall-clock duration, never double-counting overlaps.
    pub elapsed_inclusive: u64,
    pub byte_count: u64,
    pub hit_count: u64,
}

impl TimeRecord {
    pub fn new(label: &'static str) -> (r: TimeRecord)
        ensures
            r.label == label,
            r.elapsed_exclusive == 0,
            r.elapsed_inclusive == 0,
            r.byte_count == 0,
            r.hit_count == 0,
    {
        TimeRecord { label, elapsed_exclusive: 0, elapsed_inclusive: 0, byte_count: 0, hit_count: 0 }
    }
}

/// One profiling session, owned by the caller: the fixed-capacity zone table
/// and the innermost currently open zone. The ghost model carries the exact
/// accounting that the stored 64-bit totals are reductions of.
pub struct Profiler {
    pub records: Vec<Option<TimeRecord>>,
    pub current: Option<usize>,
    pub model: Ghost<ProfModel>,
}

impl Profiler {
    /// Session well-formedness: the model invariant holds, every stored total
    /// is its model value modulo 2^64, unregistered zones are blank, and
    /// `current` names the innermost open zone.
    pub open spec fn wf(&self) -> bool {
        let m = self.model@;
        &&& model_inv(m)
        &&& m.num_zones() == self.records@.len()
        &&& forall|i: int|
            0 <= i < self.records@.len() ==> ((#[trigger] self.records@[i]) is Some <==> m.labels[i] is Some)
        &&& forall|i: int|
            0 <= i < self.records@.len() && self.records@[i] is Some ==> {
                let r = (#[trigger] self.records@[i]).unwrap();
                &&& r.label == m.labels[i].unwrap()
                &&& r.elapsed_exclusive == wrap64(m.excl[i])
                &&& r.elapsed_inclusive == wrap64(m.incl[i])
                &&& r.hit_count == wrap64(m.hits[i])
                &&& r.byte_count == wrap64(m.bytes[i])
            }
        &&& forall|i: int|
            0 <= i < self.records@.len() && (#[trigger] self.records@[i]) is None ==> m.excl[i]
                == 0 && m.incl[i] == 0 && m.hits[i] == 0 && m.bytes[i] == 0
        &&& match self.current {
            Some(c) => m.open.len() > 0 && (c as int) < self.records@.len() && m.open.last().idx
                == c as int,
            None => m.open.len() == 0,
        }
    }

    /// A fresh session with `capacity` zone slots, none registered, no zone
    /// open. The capacity is fixed for the session's lifetime: registering a
    /// zone index at or above it is rejected at entry.
    pub fn new(capacity: usize) -> (r: Profiler)
        ensures
            r.wf(),
            r.model@ == init_model(capacity as int),
            r.records@.len() == capacity,
            r.current is None,
    {
        let mut records: Vec<Option<TimeRecord>> = Vec::new();
        let mut i: usize = 0;
        while i < capacity
            invariant
                i <= capacity,
                records@.len() == i,
                forall|j: int| 0 <= j < i ==> (#[trigger] records@[j]) is None,
            decreases capacity - i,
        {
            records.push(None);
            i = i + 1;
        }
        proof {
            lemma_init_inv(capacity as int);
        }
        Profiler { records, current: None, model: Ghost(init_model(capacity as int)) }
    }

    /// The registered zones in table order: the raw rows of a report.
    /// Percentages of a total and bandwidth figures are ratios of these raw
    /// totals and are left to the report sink.
    pub fn report(&self) -> (r: Vec<TimeRecord>)
        ensures
            r@ == report_spec(self.records@),
    {
        let mut out: Vec<TimeRecord> = Vec::new();
        let mut i: usize = 0;
        while i < self.records.len()
            invariant
                i <= self.records@.len(),
                out@ == report_spec(self.records@.take(i as int)),
            decreases self.records@.len() - i,
        {
            let entry = self.records[i];
            if let Some(rec) = entry {
                out.push(rec);
            }
            i = i + 1;
            proof {
                assert(self.records@.take(i as int).drop_last() =~= self.records@.take(i - 1));
                assert(self.records@.take(i as int).last() == self.records@[i - 1]);
                if self.records@[i - 1] is Some {
                    assert(out@ =~= report_spec(self.records@.take(i - 1)) + seq![
                        self.records@[i - 1].unwrap(),
                    ]);
                }
            }
        }
        proof {
            assert(self.records@.take(self.records@.len() as int) =~= self.records@);
        }
        out
    }
}

/// The rows of a report: every registered zone's record, in table order.
pub open spec fn report_spec(recs: Seq<Option<TimeRecord>>) -> Seq<TimeRecord>
    decreases recs.len(),
{
    if recs.len() == 0 {
        Seq::empty()
    } else {
        report_spec(recs.drop_last()) + if recs.last() is Some {
            seq![recs.last().unwrap()]
        } else {
            Seq::empty()
        }
    }
}

/// A scoped measurement handle for one zone entry. Created on entry, and to
/// be closed exactly once, on every exit path, before any enclosing handle:
/// handles close innermost-first.
pub struct TimeBlock {
    pub start: u64,
    pub old_elapsed_inclusive: u64,
    pub record: usize,
    pub parent: Option<usize>,
}

/// The handle describes the session's innermost open zone.
pub open spec fn block_matches(m: ProfModel, b: TimeBlock) -> bool {
    &&& m.open.len() > 0
    &&& m.open.last().idx == b.record as int
    &&& m.open.last().start == b.start as int
    &&& b.old_elapsed_inclusive == wrap64(m.open.last().old_incl)
    &&& match b.parent {
        Some(p) => m.open.len() >= 2 && m.open[m.open.len() - 2].idx == p as int,
        None => m.open.len() == 1,
    }
}

impl TimeBlock {
    /// Enters zone `record` at tick `now`, crediting `byte_count` bytes to
    /// it, and makes it the innermost open zone. Registers the zone under
    /// `label` on first use; re-registration with the same index keeps the
    /// first label and only adds the bytes. `now` must come from the same
    /// monotone counter as every tick handed to this session before.
    pub fn new(
        profiler: &mut Profiler,
        label: &'static str,
        record: usize,
        byte_count: u64,
        now: u64,
    ) -> (b: TimeBlock)
        requires
            old(profiler).wf(),
            record < old(profiler).records@.len(),
            now >= old(profiler).model@.last,
        ensures
            final(profiler).wf(),
            final(profiler).model@ == begin_spec(
                old(profiler).model@,
                label,
                record as int,
                byte_count as int,
                now as int,
            ),
            final(profiler).records@.len() == old(profiler).records@.len(),
            block_matches(final(profiler).model@, b),
            b.record == record,
            b.start == now,
            b.parent == old(profiler).current,
            final(profiler).current == Some(record),
    {
        let ghost m0 = profiler.model@;
        let entry = profiler.records[record];
        if entry.is_none() {
            proof {
                lemma_wrap64_small(0);
            }
            profiler.records.set(record, Some(TimeRecord::new(label)));
        }
        let rec = profiler.records[record].unwrap();
        let updated = TimeRecord { byte_count: rec.byte_count.wrapping_add(byte_count), ..rec };
        profiler.records.set(record, Some(updated));
        let parent = profiler.current;
        profiler.current = Some(record);
        profiler.model = Ghost(
            begin_spec(m0, label, record as int, byte_count as int, now as int),
        );
        proof {
            lemma_begin_preserves_inv(m0, label, record as int, byte_count as int, now as int);
            lemma_wrap64_add(m0.bytes[record as int], byte_count);
        }
        TimeBlock { start: now, old_elapsed_inclusive: updated.elapsed_inclusive, record, parent }
    }

    /// Closes this handle at tick `now`: restores the parent as the innermost
    /// open zone, charges this entry's duration against the parent's
    /// exclusive total, adds it to this zone's exclusive total, sets the
    /// inclusive total to the entry's snapshot plus the duration, and counts
    /// the hit.
    pub fn close(self, profiler: &mut Profiler, now: u64)
        requires
            old(profiler).wf(),
            block_matches(old(profiler).model@, self),
            now >= old(profiler).model@.last,
        ensures
            final(profiler).wf(),
            final(profiler).model@ == end_spec(old(profiler).model@, now as int),
            final(profiler).records@.len() == old(profiler).records@.len(),
            final(profiler).current == self.parent,
    {
        let ghost m0 = profiler.model@;
        proof {
            assert(m0.open[m0.open.len() - 1].start <= m0.last);
        }
        let elapsed = now - self.start;
        profiler.current = self.parent;
        if let Some(parent) = self.parent {
            proof {
                assert(m0.open[m0.open.len() - 2].idx == parent as int);
                lemma_wrap64_sub(m0.excl[parent as int], elapsed);
            }
            let prec = profiler.records[parent].unwrap();
            profiler.records.set(
                parent,
                Some(
                    TimeRecord {
                        elapsed_exclusive: prec.elapsed_exclusive.wrapping_sub(elapsed),
                        ..prec
                    },
                ),
            );
        }
        proof {
            let deducted = if m0.open.len() >= 2 {
                m0.excl.update(
                    m0.open[m0.open.len() - 2].idx,
                    m0.excl[m0.open[m0.open.len() - 2].idx] - (now - self.start),
                )
            } else {
                m0.excl
            };
            lemma_wrap64_add(deducted[self.record as int], elapsed);
            lemma_wrap64_add(m0.open.last().old_incl, elapsed);
            lemma_wrap64_add(m0.hits[self.record as int], 1);
        }
        let rec = profiler.records[self.record].unwrap();
        profiler.records.set(
            self.record,
            Some(
                TimeRecord {
                    elapsed_exclusive: rec.elapsed_exclusive.wrapping_add(elapsed),
                    elapsed_inclusive: self.old_elapsed_inclusive.wrapping_add(elapsed),
                    hit_count: rec.hit_count.wrapping_add(1),
                    ..rec
                },
            ),
        );
        profiler.model = Ghost(end_spec(m0, now as int));
        proof {
            lemma_end_preserves_inv(m0, now as int);
        }
    }
}

/// Law, at the stored level: when no zone is open and a zone's exact totals
/// fit in 64 bits, the inclusive count a session stores for it is at least
/// the stored exclusive count. (On a run whose totals overflow 64 bits the
/// stored fields are the exact values modulo 2^64; the law then holds of the
/// exact values, `lemma_inclusive_ge_exclusive`.)
pub proof fn lemma_stored_inclusive_ge_exclusive(p: &Profiler, i: int)
    requires
        p.wf(),
        p.model@.open.len() == 0,
        0 <= i < p.records@.len(),
        p.records@[i] is Some,
        p.model@.incl[i] <= u64::MAX,
    ensures
        p.records@[i].unwrap().elapsed_inclusive >= p.records@[i].unwrap().elapsed_exclusive,
{
    lemma_inclusive_ge_exclusive(p.model@, i);
    lemma_wrap64_small(p.model@.incl[i]);
    lemma_wrap64_small(p.model@.excl[i]);
}

} // verus!
