//! Best-time records: the fastest lap of a course with its segment times, and
//! the fastest time ever seen on each segment.
//!
//! All times are whole milliseconds. A lap is given by its arrival list: the
//! elapsed time at each checkpoint, start line first.

use vstd::prelude::*;

verus! {

/// Segment times of a record: one entry per pair of neighbouring checkpoints.
#[derive(PartialEq, Debug, Clone)]
pub struct Splits {
    /// Segment times of the fastest lap.
    pub pb: Vec<u64>,
    /// Fastest time seen on each segment, whichever lap it came from.
    pub best: Vec<u64>,
}

/// The stored record of a course.
#[derive(PartialEq, Debug, Clone)]
pub struct RaceLap {
    /// Time of the fastest lap.
    pub pb_laptime: u64,
    pub splits: Splits,
}

/// What a `RaceLap` holds, as mathematical values.
pub struct LapRecord {
    pub pb_laptime: u64,
    pub pb: Seq<u64>,
    pub best: Seq<u64>,
}

impl View for RaceLap {
    type V = LapRecord;

    open spec fn view(&self) -> LapRecord {
        LapRecord { pb_laptime: self.pb_laptime, pb: self.splits.pb@, best: self.splits.best@ }
    }
}

/// The outcome of folding one lap into what was stored.
pub struct TrackUpdate {
    /// The record that now holds for the course.
    pub record: RaceLap,
    /// Whether `record` has to be written out.
    pub write: bool,
}

/// The time of a lap: its last arrival.
pub open spec fn lap_time(arrivals: Seq<u64>) -> u64
    recommends
        arrivals.len() > 0,
{
    arrivals[arrivals.len() - 1]
}

/// The time between two arrivals, zero where the later one is not later.
pub open spec fn gap(earlier: u64, later: u64) -> u64 {
    if later >= earlier {
        (later - earlier) as u64
    } else {
        0
    }
}

/// The segment times of a lap: entry `i` is the gap between arrivals `i` and `i + 1`.
pub open spec fn segment_splits(arrivals: Seq<u64>) -> Seq<u64> {
    Seq::new(
        if arrivals.len() > 0 {
            (arrivals.len() - 1) as nat
        } else {
            0
        },
        |i: int| gap(arrivals[i], arrivals[i + 1]),
    )
}

/// The smaller of two times.
pub open spec fn lesser(a: u64, b: u64) -> u64 {
    if a <= b {
        a
    } else {
        b
    }
}

/// Segment by segment the smaller time, over the segments that both have.
pub open spec fn merged_best(prior: Seq<u64>, lap: Seq<u64>) -> Seq<u64> {
    Seq::new(
        if prior.len() <= lap.len() {
            prior.len()
        } else {
            lap.len()
        },
        |i: int| lesser(prior[i], lap[i]),
    )
}

/// The record that a first lap leaves.
pub open spec fn seed_record(arrivals: Seq<u64>) -> LapRecord {
    LapRecord {
        pb_laptime: lap_time(arrivals),
        pb: segment_splits(arrivals),
        best: segment_splits(arrivals),
    }
}

/// The record that a further lap leaves: each segment keeps its fastest time,
/// and the fastest lap is replaced, time and segments together, only by a lap
/// that is strictly faster.
pub open spec fn merged_record(prior: LapRecord, arrivals: Seq<u64>) -> LapRecord {
    let best = merged_best(prior.best, segment_splits(arrivals));
    if lap_time(arrivals) < prior.pb_laptime {
        LapRecord { pb_laptime: lap_time(arrivals), pb: segment_splits(arrivals), best }
    } else {
        LapRecord { pb_laptime: prior.pb_laptime, pb: prior.pb, best }
    }
}

/// The record that holds once a lap has been folded into what was stored.
pub open spec fn updated_record(arrivals: Seq<u64>, prior: Option<LapRecord>) -> LapRecord {
    match prior {
        Some(p) => merged_record(p, arrivals),
        None => seed_record(arrivals),
    }
}

/// Whether folding a lap into what was stored calls for a write: always for a
/// first lap, else only where the record changed.
pub open spec fn needs_write(arrivals: Seq<u64>, prior: Option<LapRecord>) -> bool {
    match prior {
        Some(p) => merged_record(p, arrivals) != p,
        None => true,
    }
}

/// Computes the segment times of a lap.
pub fn splits(checkpoints: &Vec<u64>) -> (out: Vec<u64>)
    requires
        checkpoints.len() > 0,
    ensures
        out@ == segment_splits(checkpoints@),
{
    let mut out: Vec<u64> = Vec::new();
    let mut idx: usize = 1;
    while idx < checkpoints.len()
        invariant
            1 <= idx <= checkpoints.len(),
            out@.len() == idx - 1,
            forall|j: int| 0 <= j < out@.len() ==> out@[j] == gap(checkpoints@[j], checkpoints@[j + 1]),
        decreases checkpoints.len() - idx,
    {
        out.push(checkpoints[idx].saturating_sub(checkpoints[idx - 1]));
        idx += 1;
    }
    assert(out@ =~= segment_splits(checkpoints@));
    out
}

/// Copies a list of times.
fn copy_times(times: &Vec<u64>) -> (out: Vec<u64>)
    ensures
        out@ == times@,
{
    let mut out: Vec<u64> = Vec::new();
    let mut idx: usize = 0;
    while idx < times.len()
        invariant
            idx <= times.len(),
            out@ == times@.take(idx as int),
        decreases times.len() - idx,
    {
        out.push(times[idx]);
        assert(times@.take(idx + 1) =~= times@.take(idx as int).push(times@[idx as int]));
        idx += 1;
    }
    assert(times@.take(times@.len() as int) =~= times@);
    out
}

/// Whether two lists of times hold the same times in the same order.
fn same_times(a: &Vec<u64>, b: &Vec<u64>) -> (same: bool)
    ensures
        same == (a@ == b@),
{
    if a.len() != b.len() {
        return false;
    }
    let mut idx: usize = 0;
    while idx < a.len()
        invariant
            idx <= a.len(),
            a.len() == b.len(),
            forall|j: int| 0 <= j < idx ==> a@[j] == b@[j],
        decreases a.len() - idx,
    {
        if a[idx] != b[idx] {
            return false;
        }
        idx += 1;
    }
    assert(a@ =~= b@);
    true
}

impl RaceLap {
    /// The record that a first lap leaves: the lap is the fastest one, and its
    /// segment times are the best of every segment.
    pub fn new(checkpoint_times: &Vec<u64>) -> (lap: RaceLap)
        requires
            checkpoint_times.len() > 0,
        ensures
            lap@ == seed_record(checkpoint_times@),
    {
        RaceLap {
            pb_laptime: checkpoint_times[checkpoint_times.len() - 1],
            splits: Splits { pb: splits(checkpoint_times), best: splits(checkpoint_times) },
        }
    }

    /// Whether two records agree in every field.
    pub fn same_as(&self, other: &RaceLap) -> (same: bool)
        ensures
            same == (self@ == other@),
    {
        self.pb_laptime == other.pb_laptime && same_times(&self.splits.pb, &other.splits.pb)
            && same_times(&self.splits.best, &other.splits.best)
    }
}

/// Folds a finished lap into an earlier record.
pub fn calculate_pb(previous_data: &RaceLap, checkpoint_times: &Vec<u64>) -> (new_data: RaceLap)
    requires
        checkpoint_times.len() > 0,
    ensures
        new_data@ == merged_record(previous_data@, checkpoint_times@),
{
    let laptime = checkpoint_times[checkpoint_times.len() - 1];
    let lap_splits = splits(checkpoint_times);
    let prior_best = &previous_data.splits.best;

    let mut new_best_splits: Vec<u64> = Vec::new();
    let mut idx: usize = 0;
    while idx < prior_best.len() && idx < lap_splits.len()
        invariant
            idx <= prior_best.len(),
            idx <= lap_splits.len(),
            new_best_splits@.len() == idx,
            forall|j: int| 0 <= j < idx ==> new_best_splits@[j] == lesser(prior_best@[j], lap_splits@[j]),
        decreases prior_best.len() - idx,
    {
        let a = prior_best[idx];
        let b = lap_splits[idx];
        new_best_splits.push(if a <= b { a } else { b });
        idx += 1;
    }
    assert(new_best_splits@ =~= merged_best(prior_best@, lap_splits@));

    if laptime < previous_data.pb_laptime {
        RaceLap { pb_laptime: laptime, splits: Splits { pb: lap_splits, best: new_best_splits } }
    } else {
        RaceLap {
            pb_laptime: previous_data.pb_laptime,
            splits: Splits { pb: copy_times(&previous_data.splits.pb), best: new_best_splits },
        }
    }
}

/// Folds a finished lap into what was stored for its course, if anything was,
/// and says whether the outcome has to be written out.
pub fn update_track_data(checkpoint_times: &Vec<u64>, previous: Option<RaceLap>) -> (update: TrackUpdate)
    requires
        checkpoint_times.len() > 0,
    ensures
        update.record@ == updated_record(checkpoint_times@, option_view(previous)),
        update.write == needs_write(checkpoint_times@, option_view(previous)),
{
    match previous {
        Some(previous_data) => {
            let new_data = calculate_pb(&previous_data, checkpoint_times);
            let write = !new_data.same_as(&previous_data);
            TrackUpdate { record: new_data, write }
        },
        None => TrackUpdate { record: RaceLap::new(checkpoint_times), write: true },
    }
}

/// What an optional record holds.
pub open spec fn option_view(record: Option<RaceLap>) -> Option<LapRecord> {
    match record {
        Some(r) => Some(r@),
        None => None,
    }
}

/// What is stored after a run of laps that began with nothing stored, each
/// lap folded in as `update_track_data` does it.
pub open spec fn stored_after(laps: Seq<Seq<u64>>) -> Option<LapRecord>
    decreases laps.len(),
{
    if laps.len() == 0 {
        None
    } else {
        Some(updated_record(laps.last(), stored_after(laps.drop_last())))
    }
}

/// Whether every lap of a run has one arrival per checkpoint of a course.
pub open spec fn same_course(laps: Seq<Seq<u64>>, checkpoints: nat) -> bool {
    forall|k: int| 0 <= k < laps.len() ==> (#[trigger] laps[k]).len() == checkpoints
}

/// Whether a record has one time per segment of a course of `checkpoints`
/// checkpoints, for the fastest lap and for the best times alike.
pub open spec fn covers(record: LapRecord, checkpoints: nat) -> bool {
    record.pb.len() == checkpoints - 1 && record.best.len() == checkpoints - 1
}

/// Whether lap `k` of a run is the first of its fastest laps.
pub open spec fn is_first_fastest(laps: Seq<Seq<u64>>, k: int) -> bool {
    &&& 0 <= k < laps.len()
    &&& forall|j: int| 0 <= j < laps.len() ==> lap_time(laps[k]) <= lap_time(#[trigger] laps[j])
    &&& forall|j: int| 0 <= j < k ==> lap_time(laps[k]) < lap_time(#[trigger] laps[j])
}

/// Folding a lap into the record that the same lap has just left changes
/// nothing and calls for no write.
pub proof fn lemma_update_is_idempotent(arrivals: Seq<u64>, prior: Option<LapRecord>)
    ensures
        updated_record(arrivals, Some(updated_record(arrivals, prior))) == updated_record(
            arrivals,
            prior,
        ),
        !needs_write(arrivals, Some(updated_record(arrivals, prior))),
{
    let once = updated_record(arrivals, prior);
    let twice = merged_record(once, arrivals);
    assert(twice.best =~= once.best);
}

/// The laps of a run but the last are laps of the same course.
proof fn lemma_same_course_earlier(laps: Seq<Seq<u64>>, checkpoints: nat)
    requires
        laps.len() > 0,
        same_course(laps, checkpoints),
    ensures
        same_course(laps.drop_last(), checkpoints),
        laps.last().len() == checkpoints,
{
    let earlier = laps.drop_last();
    assert forall|k: int| 0 <= k < earlier.len() implies (#[trigger] earlier[k]).len()
        == checkpoints by {
        assert(earlier[k] == laps[k]);
    }
    assert(laps.last() == laps[laps.len() - 1]);
}

/// After any run of laps on one course, the record has one time per segment
/// of the course.
pub proof fn lemma_record_covers_course(laps: Seq<Seq<u64>>, checkpoints: nat)
    requires
        laps.len() > 0,
        checkpoints > 0,
        same_course(laps, checkpoints),
    ensures
        stored_after(laps).is_some(),
        covers(stored_after(laps).unwrap(), checkpoints),
    decreases laps.len(),
{
    lemma_same_course_earlier(laps, checkpoints);
    if laps.len() > 1 {
        lemma_record_covers_course(laps.drop_last(), checkpoints);
    }
}

/// After any run of laps on one course, the best time of a segment is the
/// least time that any lap of the run took on it: no lap was faster there,
/// and one lap was exactly that fast.
pub proof fn lemma_best_is_minimum(laps: Seq<Seq<u64>>, checkpoints: nat, segment: int)
    requires
        laps.len() > 0,
        same_course(laps, checkpoints),
        0 <= segment < checkpoints - 1,
    ensures
        stored_after(laps).is_some(),
        forall|k: int|
            0 <= k < laps.len() ==> stored_after(laps).unwrap().best[segment] <= segment_splits(
                #[trigger] laps[k],
            )[segment],
        exists|k: int|
            0 <= k < laps.len() && stored_after(laps).unwrap().best[segment] == segment_splits(
                #[trigger] laps[k],
            )[segment],
    decreases laps.len(),
{
    let last = laps.len() - 1;
    let earlier = laps.drop_last();
    let after = stored_after(laps).unwrap().best[segment];
    lemma_same_course_earlier(laps, checkpoints);
    if laps.len() == 1 {
        assert(after == segment_splits(laps[last])[segment]);
    } else {
        lemma_record_covers_course(earlier, checkpoints);
        lemma_best_is_minimum(earlier, checkpoints, segment);
        let before = stored_after(earlier).unwrap().best[segment];
        let here = segment_splits(laps[last])[segment];
        assert(after == lesser(before, here));
        assert forall|k: int| 0 <= k < laps.len() implies after <= segment_splits(
            #[trigger] laps[k],
        )[segment] by {
            if k < last {
                assert(earlier[k] == laps[k]);
            }
        }
        if before <= here {
            let k = choose|k: int|
                0 <= k < earlier.len() && before == segment_splits(#[trigger] earlier[k])[segment];
            assert(earlier[k] == laps[k]);
            assert(after == segment_splits(laps[k])[segment]);
        } else {
            assert(after == segment_splits(laps[last])[segment]);
        }
    }
}

/// Every lap of a run is a lap of any run with the same laps in another
/// order.
proof fn lemma_lap_of_both(first: Seq<Seq<u64>>, second: Seq<Seq<u64>>, k: int) -> (at: int)
    requires
        first.to_multiset() == second.to_multiset(),
        0 <= k < first.len(),
    ensures
        0 <= at < second.len(),
        second[at] == first[k],
{
    first.to_multiset_ensures();
    second.to_multiset_ensures();
    assert(first.contains(first[k]));
    assert(first.to_multiset().count(first[k]) > 0);
    assert(second.contains(first[k]));
    choose|at: int| 0 <= at < second.len() && second[at] == first[k]
}

/// The best times after a run of laps on one course do not depend on the
/// order in which the laps were driven.
pub proof fn lemma_best_ignores_lap_order(
    first: Seq<Seq<u64>>,
    second: Seq<Seq<u64>>,
    checkpoints: nat,
)
    requires
        first.len() > 0,
        checkpoints > 0,
        same_course(first, checkpoints),
        first.to_multiset() == second.to_multiset(),
    ensures
        stored_after(first).is_some(),
        stored_after(second).is_some(),
        stored_after(first).unwrap().best == stored_after(second).unwrap().best,
{
    first.to_multiset_ensures();
    second.to_multiset_ensures();
    assert(same_course(second, checkpoints)) by {
        assert forall|k: int| 0 <= k < second.len() implies (#[trigger] second[k]).len()
            == checkpoints by {
            let at = lemma_lap_of_both(second, first, k);
        }
    }
    lemma_record_covers_course(first, checkpoints);
    lemma_record_covers_course(second, checkpoints);
    let one = stored_after(first).unwrap().best;
    let other = stored_after(second).unwrap().best;
    assert forall|i: int| 0 <= i < checkpoints - 1 implies one[i] == other[i] by {
        lemma_best_is_minimum(first, checkpoints, i);
        lemma_best_is_minimum(second, checkpoints, i);
        let a = choose|k: int|
            0 <= k < first.len() && one[i] == segment_splits(#[trigger] first[k])[i];
        let b = choose|k: int|
            0 <= k < second.len() && other[i] == segment_splits(#[trigger] second[k])[i];
        let a_there = lemma_lap_of_both(first, second, a);
        let b_there = lemma_lap_of_both(second, first, b);
        assert(other[i] <= segment_splits(second[a_there])[i]);
        assert(one[i] <= segment_splits(first[b_there])[i]);
    }
    assert(one =~= other);
}

/// After any run of laps, the fastest-lap time and the fastest-lap segment
/// times are those of one lap of the run: the first of its fastest laps.
pub proof fn lemma_pb_is_fastest_lap(laps: Seq<Seq<u64>>)
    requires
        laps.len() > 0,
    ensures
        stored_after(laps).is_some(),
        exists|k: int|
            #![trigger laps[k]]
            is_first_fastest(laps, k) && stored_after(laps).unwrap().pb_laptime == lap_time(
                laps[k],
            ) && stored_after(laps).unwrap().pb == segment_splits(laps[k]),
    decreases laps.len(),
{
    let last = laps.len() - 1;
    let earlier = laps.drop_last();
    let record = stored_after(laps).unwrap();
    assert(laps.last() == laps[last]);
    if laps.len() == 1 {
        assert(is_first_fastest(laps, 0));
        assert(record.pb == segment_splits(laps[0]));
    } else {
        lemma_pb_is_fastest_lap(earlier);
        let before = stored_after(earlier).unwrap();
        let k = choose|k: int|
            #![trigger earlier[k]]
            is_first_fastest(earlier, k) && before.pb_laptime == lap_time(earlier[k]) && before.pb
                == segment_splits(earlier[k]);
        assert(earlier[k] == laps[k]);
        assert forall|j: int| 0 <= j < last implies lap_time(laps[k]) <= lap_time(
            #[trigger] laps[j],
        ) by {
            assert(earlier[j] == laps[j]);
        }
        assert forall|j: int| 0 <= j < k implies lap_time(laps[k]) < lap_time(
            #[trigger] laps[j],
        ) by {
            assert(earlier[j] == laps[j]);
        }
        if lap_time(laps[last]) < before.pb_laptime {
            assert(is_first_fastest(laps, last));
            assert(record.pb == segment_splits(laps[last]));
        } else {
            assert(is_first_fastest(laps, k));
            assert(record.pb == segment_splits(laps[k]));
        }
    }
}

} // verus!
