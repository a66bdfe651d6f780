//! A course: its checkpoints in the order in which a lap passes them, and
//! the reset checkpoint, if it has one.

use crate::checkpoint::Checkpoint;
use crate::checkpoint::Stepname;
use vstd::prelude::*;

verus! {

/// Course is a series of numbered checkpoints with dedicated Start, Reset, and End checkpoints
#[derive(Clone, Debug)]
pub struct Course {
    pub name: String,
    pub checkpoints: Vec<Checkpoint>,
    pub reset: Option<Checkpoint>,
}

/// The step number given to the checkpoint that is added at place `index`:
/// the index itself while it fits, its low sixteen bits read as a signed
/// number beyond that.
pub open spec fn step_of_index(index: usize) -> i16 {
    let low = index % 0x1_0000;
    if low < 0x8000 {
        low as i16
    } else {
        (low - 0x1_0000) as i16
    }
}

/// Whether a record stands for the reset checkpoint.
pub open spec fn is_reset(record: Checkpoint) -> bool {
    record.stepname == Stepname::Reset
}

/// The records that lie on the lap, in the order given.
pub open spec fn on_course(records: Seq<Checkpoint>) -> Seq<Checkpoint> {
    records.filter(|record: Checkpoint| !is_reset(record))
}

/// The records with a given step number, in the order given.
pub open spec fn with_step(records: Seq<Checkpoint>, step: i16) -> Seq<Checkpoint> {
    records.filter(|record: Checkpoint| record.step == step)
}

/// Whether step numbers never fall from one record to the next.
pub open spec fn ascending(records: Seq<Checkpoint>) -> bool {
    forall|i: int, j: int| 0 <= i <= j < records.len() ==> records[i].step <= records[j].step
}

/// The last record that stands for the reset checkpoint, if there is one.
pub open spec fn last_reset(records: Seq<Checkpoint>) -> Option<Checkpoint>
    decreases records.len(),
{
    if records.len() == 0 {
        None
    } else if is_reset(records.last()) {
        Some(records.last())
    } else {
        last_reset(records.drop_last())
    }
}

/// Whether `sorted` holds the lap's records of `records` in ascending order
/// of step, records of one step in the order in which they were given.
pub open spec fn is_course_order(sorted: Seq<Checkpoint>, records: Seq<Checkpoint>) -> bool {
    &&& ascending(sorted)
    &&& sorted.len() == on_course(records).len()
    &&& forall|step: i16| with_step(sorted, step) == with_step(on_course(records), step)
}

/// Whether no two records have the same step.
pub open spec fn distinct_steps(records: Seq<Checkpoint>) -> bool {
    forall|i: int, j: int| 0 <= i < j < records.len() ==> records[i].step != records[j].step
}

/// Whether step numbers rise from each record to the next.
pub open spec fn strictly_ascending(records: Seq<Checkpoint>) -> bool {
    forall|i: int, j: int| 0 <= i < j < records.len() ==> records[i].step < records[j].step
}

/// What taking one more record does to the records with a given step.
proof fn lemma_with_step_push(records: Seq<Checkpoint>, record: Checkpoint, step: i16)
    ensures
        with_step(records.push(record), step) == if record.step == step {
            with_step(records, step).push(record)
        } else {
            with_step(records, step)
        },
{
    reveal(Seq::filter);
    assert(records.push(record).drop_last() =~= records);
}

/// What taking one more record does to the records on the lap.
proof fn lemma_on_course_push(records: Seq<Checkpoint>, record: Checkpoint)
    ensures
        on_course(records.push(record)) == if is_reset(record) {
            on_course(records)
        } else {
            on_course(records).push(record)
        },
{
    reveal(Seq::filter);
    assert(records.push(record).drop_last() =~= records);
}

/// Among records that all have another step, none has the given one.
proof fn lemma_with_step_none(records: Seq<Checkpoint>, step: i16)
    requires
        forall|i: int| 0 <= i < records.len() ==> records[i].step != step,
    ensures
        with_step(records, step) == Seq::<Checkpoint>::empty(),
    decreases records.len(),
{
    reveal(Seq::filter);
    if records.len() > 0 {
        lemma_with_step_none(records.drop_last(), step);
    }
}

/// Putting a record behind the last one whose step is not greater keeps the
/// order ascending, and adds the record at the end of those with its step.
proof fn lemma_insert_in_order(sorted: Seq<Checkpoint>, place: int, record: Checkpoint, step: i16)
    requires
        ascending(sorted),
        0 <= place <= sorted.len(),
        forall|i: int| 0 <= i < place ==> sorted[i].step <= record.step,
        forall|i: int| place <= i < sorted.len() ==> sorted[i].step > record.step,
    ensures
        ascending(sorted.insert(place, record)),
        sorted.insert(place, record).len() == sorted.len() + 1,
        with_step(sorted.insert(place, record), step) == if record.step == step {
            with_step(sorted, step).push(record)
        } else {
            with_step(sorted, step)
        },
{
    let before = sorted.subrange(0, place);
    let after = sorted.subrange(place, sorted.len() as int);
    let grown = sorted.insert(place, record);
    assert(sorted =~= before + after);
    assert(grown =~= before.push(record) + after);
    Seq::filter_distributes_over_add(before, after, |r: Checkpoint| r.step == step);
    Seq::filter_distributes_over_add(before.push(record), after, |r: Checkpoint| r.step == step);
    lemma_with_step_push(before, record, step);
    if record.step == step {
        lemma_with_step_none(after, step);
        assert(with_step(before, step).push(record) + Seq::<Checkpoint>::empty() =~= with_step(
            before,
            step,
        ).push(record));
        assert(with_step(before, step) + Seq::<Checkpoint>::empty() =~= with_step(before, step));
    }
    assert forall|i: int, j: int| 0 <= i <= j < grown.len() implies grown[i].step
        <= grown[j].step by {
        let a = if i < place {
            sorted[i]
        } else if i == place {
            record
        } else {
            sorted[i - 1]
        };
        let b = if j < place {
            sorted[j]
        } else if j == place {
            record
        } else {
            sorted[j - 1]
        };
        assert(grown[i] == a);
        assert(grown[j] == b);
    }
}

/// Two records with one step make two records with that step.
proof fn lemma_with_step_two(records: Seq<Checkpoint>, i: int, j: int)
    requires
        0 <= i < j < records.len(),
        records[i].step == records[j].step,
    ensures
        with_step(records, records[i].step).len() >= 2,
    decreases records.len(),
{
    let step = records[i].step;
    let earlier = records.drop_last();
    assert(records =~= earlier.push(records.last()));
    lemma_with_step_push(earlier, records.last(), step);
    if j == records.len() - 1 {
        earlier.lemma_filter_contains(|record: Checkpoint| record.step == step, i);
    } else {
        lemma_with_step_two(earlier, i, j);
    }
}

/// Among records of distinct steps, at most one has a given step.
proof fn lemma_with_step_one(records: Seq<Checkpoint>, step: i16)
    requires
        distinct_steps(records),
    ensures
        with_step(records, step).len() <= 1,
    decreases records.len(),
{
    if records.len() > 0 {
        let earlier = records.drop_last();
        assert(records =~= earlier.push(records.last()));
        lemma_with_step_push(earlier, records.last(), step);
        if records.last().step == step {
            assert forall|i: int| 0 <= i < earlier.len() implies earlier[i].step != step by {
                assert(records[i].step != records[records.len() - 1].step);
            }
            lemma_with_step_none(earlier, step);
        } else {
            lemma_with_step_one(earlier, step);
        }
    }
}

/// Where no two records on the lap have the same step, the steps of the lap
/// rise from each checkpoint to the next.
pub proof fn lemma_distinct_steps_rise(sorted: Seq<Checkpoint>, records: Seq<Checkpoint>)
    requires
        is_course_order(sorted, records),
        distinct_steps(on_course(records)),
    ensures
        strictly_ascending(sorted),
{
    assert forall|i: int, j: int| 0 <= i < j < sorted.len() implies sorted[i].step
        < sorted[j].step by {
        if sorted[i].step == sorted[j].step {
            lemma_with_step_two(sorted, i, j);
            lemma_with_step_one(on_course(records), sorted[i].step);
        }
    }
}

impl Course {
    /// Whether the steps of the lap rise from each checkpoint to the next.
    pub open spec fn wf(&self) -> bool {
        strictly_ascending(self.checkpoints@)
    }

    /// A course without a name and without checkpoints.
    pub fn new() -> (course: Course)
        ensures
            course.name@ == Seq::<char>::empty(),
            course.checkpoints@ == Seq::<Checkpoint>::empty(),
            course.reset.is_none(),
            course.wf(),
    {
        Course { name: String::new(), checkpoints: Vec::new(), reset: None }
    }

    /// Adds a checkpoint at the end of the lap, numbered by its place.
    pub fn push_cp(&mut self, x: i32, y: i32, z: i32, radius: i32)
        ensures
            final(self).checkpoints@ == old(self).checkpoints@.push(
                (Checkpoint {
                    step: step_of_index(old(self).checkpoints.len()),
                    stepname: Stepname::Checkpoint,
                    x,
                    y,
                    z,
                    radius,
                }),
            ),
            final(self).name == old(self).name,
            final(self).reset == old(self).reset,
            old(self).wf() && (forall|i: int|
                0 <= i < old(self).checkpoints@.len() ==> old(self).checkpoints@[i].step
                    < step_of_index(old(self).checkpoints.len())) ==> final(self).wf(),
    {
        let idx = self.checkpoints.len();
        let low: usize = idx % 0x1_0000;
        let step: i16 = if low < 0x8000 {
            low as i16
        } else {
            (low as i32 - 0x1_0000) as i16
        };
        self.checkpoints.push(Checkpoint { step, stepname: Stepname::Checkpoint, x, y, z, radius });
    }

    /// Sets the reset checkpoint, in place of an earlier one.
    pub fn add_reset(&mut self, x: i32, y: i32, z: i32, radius: i32)
        ensures
            final(self).reset == Some(
                (Checkpoint { step: -1i16, stepname: Stepname::Reset, x, y, z, radius }),
            ),
            final(self).name == old(self).name,
            final(self).checkpoints == old(self).checkpoints,
            old(self).wf() ==> final(self).wf(),
    {
        self.reset = Some(Checkpoint { step: -1, stepname: Stepname::Reset, x, y, z, radius });
    }

    /// Builds a course from the records of a course file, in file order. The
    /// last reset record becomes the reset checkpoint. The others become the
    /// lap, in ascending order of step; records with one step keep their file
    /// order.
    pub fn from_records(track: &String, records: Vec<Checkpoint>) -> (course: Course)
        ensures
            course.name@ == track@,
            course.reset == last_reset(records@),
            is_course_order(course.checkpoints@, records@),
            distinct_steps(on_course(records@)) ==> course.wf(),
    {
        let mut checkpoints: Vec<Checkpoint> = Vec::new();
        let mut reset: Option<Checkpoint> = None;
        let mut idx: usize = 0;
        proof {
            reveal(Seq::filter);
            assert(records@.take(0) =~= Seq::<Checkpoint>::empty());
        }
        while idx < records.len()
            invariant
                idx <= records.len(),
                reset == last_reset(records@.take(idx as int)),
                is_course_order(checkpoints@, records@.take(idx as int)),
            decreases records.len() - idx,
        {
            let checkpoint = records[idx];
            let ghost seen = records@.take(idx as int);
            proof {
                assert(records@.take(idx + 1) =~= seen.push(checkpoint));
                assert(seen.push(checkpoint).drop_last() =~= seen);
                lemma_on_course_push(seen, checkpoint);
            }
            match checkpoint.stepname {
                Stepname::Reset => {
                    reset = Some(checkpoint);
                },
                Stepname::Checkpoint | Stepname::Start | Stepname::End => {
                    let mut place: usize = checkpoints.len();
                    while place > 0 && checkpoints[place - 1].step > checkpoint.step
                        invariant
                            place <= checkpoints.len(),
                            forall|i: int|
                                place <= i < checkpoints.len() ==> checkpoints@[i].step
                                    > checkpoint.step,
                        decreases place,
                    {
                        place -= 1;
                    }
                    let ghost sorted = checkpoints@;
                    proof {
                        assert forall|i: int| 0 <= i < place implies sorted[i].step
                            <= checkpoint.step by {
                            assert(sorted[i].step <= sorted[place - 1].step);
                        }
                        assert forall|step: i16|
                            with_step(sorted.insert(place as int, checkpoint), step) == with_step(
                                on_course(seen.push(checkpoint)),
                                step,
                            ) by {
                            lemma_insert_in_order(sorted, place as int, checkpoint, step);
                            lemma_with_step_push(on_course(seen), checkpoint, step);
                        }
                        lemma_insert_in_order(sorted, place as int, checkpoint, checkpoint.step);
                    }
                    checkpoints.insert(place, checkpoint);
                },
            }
            idx += 1;
        }
        proof {
            assert(records@.take(records@.len() as int) =~= records@);
            if distinct_steps(on_course(records@)) {
                lemma_distinct_steps_rise(checkpoints@, records@);
            }
        }
        Course { name: track.clone(), checkpoints, reset }
    }
}

} // verus!
