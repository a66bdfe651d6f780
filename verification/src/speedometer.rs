//! The live session: progress of the lap through the checkpoints of a course,
//! the race state derived from it, and a speed estimate from the last few
//! position samples.
//!
//! Times are whole milliseconds on a clock of the caller's that never runs
//! backwards. Lengths are in the unit of `Position`.

use crate::checkpoint::Checkpoint;
use crate::course::Course;
use crate::guild_wars_handler::GW2Data;
use crate::util::distance_squared_2d;
use crate::util::distance_squared_3d;
use crate::util::euclidian_distance_2d;
use crate::util::euclidian_distance_3d;
use crate::util::floor_sqrt;
use crate::util::is_floor_sqrt;
use crate::util::lemma_floor_sqrt_below;
use crate::util::Position;
use std::collections::VecDeque;
use vstd::prelude::*;

verus! {

/// How many distance samples the speed estimate looks at.
pub const SPEED_WINDOW: usize = 5;

/// Where a lap stands.
#[derive(PartialEq, Eq, Structural, Clone, Copy, Debug)]
pub enum RaceState {
    WaitingToStart,
    Racing,
    Finished,
}

/// A position sample with the time at which it was taken.
#[derive(PartialEq, Eq, Structural, Clone, Copy, Debug)]
pub struct TimePosition {
    pub time: u64,
    pub position: Position,
}

impl TimePosition {
    /// A sample at the origin, taken at `time`.
    pub fn new(time: u64) -> (sample: TimePosition)
        ensures
            sample == (TimePosition { time, position: Position { x: 0, y: 0, z: 0 } }),
    {
        TimePosition { time, position: Position::new() }
    }
}

/// The factor that turns the distance covered between two samples into the
/// speed shown, as a fraction. A tuning value: set it to what makes the
/// speed agree with the game's own display.
#[derive(PartialEq, Eq, Structural, Clone, Copy, Debug)]
pub struct SpeedScale {
    pub numerator: u64,
    pub denominator: u64,
}

/// Numerator of the scale that suits samples taken every ten milliseconds,
/// with coordinates counted in thousandths of the game's unit of length.
pub const DEFAULT_SPEED_NUMERATOR: u64 = 291_060;

/// Denominator of that scale.
pub const DEFAULT_SPEED_DENOMINATOR: u64 = 5_376_600;

impl Default for SpeedScale {
    fn default() -> (scale: SpeedScale)
        ensures
            scale == (SpeedScale {
                numerator: DEFAULT_SPEED_NUMERATOR,
                denominator: DEFAULT_SPEED_DENOMINATOR,
            }),
    {
        SpeedScale { numerator: DEFAULT_SPEED_NUMERATOR, denominator: DEFAULT_SPEED_DENOMINATOR }
    }
}

/// The progress of a lap, as mathematical values.
pub struct LapProgress {
    /// Index of the checkpoint to be reached next.
    pub index: usize,
    /// When the lap started.
    pub start: u64,
    /// Time since the start at each checkpoint reached so far.
    pub arrivals: Seq<u64>,
    pub state: RaceState,
}

/// What the events of one tick are.
#[derive(PartialEq, Eq, Structural, Clone, Copy, Debug)]
pub struct TickEvents {
    /// The racer was in the reset zone, and the lap was started over.
    pub restarted: bool,
    /// The lap was finished in this tick.
    pub finished: bool,
}

/// The live session: the course, the lap on it, the last position samples
/// and the window of the speed estimate.
pub struct RaceContext {
    pub selected_cup: Option<String>,
    pub selected_course: Option<Course>,
    pub current_checkpoint: usize,
    pub start_time: u64,
    pub checkpoint_times: Vec<u64>,
    pub race_state: RaceState,
    pub speed_scale: SpeedScale,
    /// The last two position samples, the earlier one first.
    pub instants: (Option<TimePosition>, Option<TimePosition>),
    /// The distances between the last samples, oldest first.
    pub distance_queue: VecDeque<u64>,
    pub gw2_data: GW2Data,
}

/// The race state that belongs to an index on a course of `checkpoints`
/// checkpoints.
pub open spec fn state_for(index: usize, checkpoints: nat) -> RaceState {
    if index == 0 {
        RaceState::WaitingToStart
    } else if index < checkpoints {
        RaceState::Racing
    } else {
        RaceState::Finished
    }
}

/// The time from `start` to `now`, zero where `now` is not later.
pub open spec fn elapsed(start: u64, now: u64) -> u64 {
    if now >= start {
        (now - start) as u64
    } else {
        0
    }
}

/// The lap started over: nothing reached. The state is left as it was.
pub open spec fn restarted(p: LapProgress) -> LapProgress {
    LapProgress { index: 0, arrivals: Seq::empty(), ..p }
}

/// The lap after the next checkpoint was reached at `now`. A finished lap
/// stays as it is; a lap that waited for its start starts at `now`.
pub open spec fn collected(p: LapProgress, now: u64) -> LapProgress {
    if p.state == RaceState::Finished {
        p
    } else {
        let start = if p.state == RaceState::WaitingToStart {
            now
        } else {
            p.start
        };
        LapProgress {
            index: (p.index + 1) as usize,
            start,
            arrivals: p.arrivals.push(elapsed(start, now)),
            state: p.state,
        }
    }
}

/// The lap with its state brought in line with its index.
pub open spec fn recomputed(p: LapProgress, checkpoints: nat) -> LapProgress {
    LapProgress { state: state_for(p.index, checkpoints), ..p }
}

/// Whether a position lies strictly inside a checkpoint.
pub open spec fn inside(position: Position, checkpoint: Checkpoint) -> bool {
    checkpoint.radius > 0 && distance_squared_3d(position, checkpoint.centre()) < checkpoint.radius
        * checkpoint.radius
}

/// The distance between the last two samples as seen from above, rounded
/// down; zero while there are not yet two samples.
pub open spec fn sample_distance(instants: (Option<TimePosition>, Option<TimePosition>)) -> int {
    match instants {
        (Some(earlier), Some(later)) => floor_sqrt(
            distance_squared_2d(earlier.position, later.position),
        ),
        _ => 0,
    }
}

/// The window of samples after one more was taken: the new one at the end,
/// the oldest dropped once there are more than `SPEED_WINDOW`.
pub open spec fn window_after(window: Seq<u64>, sample: u64) -> Seq<u64> {
    let grown = window.push(sample);
    if grown.len() > SPEED_WINDOW {
        grown.subrange(1, grown.len() as int)
    } else {
        grown
    }
}

/// The greatest of some samples, zero where there is none.
pub open spec fn greatest(samples: Seq<u64>) -> u64
    decreases samples.len(),
{
    if samples.len() == 0 {
        0
    } else {
        let rest = greatest(samples.drop_last());
        if samples.last() >= rest {
            samples.last()
        } else {
            rest
        }
    }
}

/// The speed shown for a distance per sample: the distance times the scale,
/// rounded down and capped at the greatest `i32`. Zero under a scale with
/// denominator zero.
pub open spec fn speed_of(distance: u64, scale: SpeedScale) -> i32 {
    if scale.denominator == 0 {
        0
    } else {
        let scaled = distance * scale.numerator / (scale.denominator as int);
        if scaled > i32::MAX {
            i32::MAX
        } else {
            scaled as i32
        }
    }
}

/// The greatest of some samples is one of them, and none is greater.
pub proof fn lemma_greatest_is_maximum(samples: Seq<u64>)
    ensures
        forall|i: int| 0 <= i < samples.len() ==> samples[i] <= greatest(samples),
        samples.len() > 0 ==> exists|i: int| 0 <= i < samples.len() && samples[i] == greatest(samples),
    decreases samples.len(),
{
    if samples.len() > 0 {
        let rest = samples.drop_last();
        lemma_greatest_is_maximum(rest);
        assert forall|i: int| 0 <= i < samples.len() implies samples[i] <= greatest(samples) by {
            if i < rest.len() {
                assert(rest[i] == samples[i]);
            }
        }
        if samples.last() >= greatest(rest) {
            assert(samples[samples.len() - 1] == greatest(samples));
        } else {
            let i = choose|i: int| 0 <= i < rest.len() && rest[i] == greatest(rest);
            assert(samples[i] == greatest(samples));
        }
    }
}

/// The speed shown never falls when the distance per sample grows.
pub proof fn lemma_speed_is_monotonic(slower: u64, faster: u64, scale: SpeedScale)
    requires
        slower <= faster,
    ensures
        speed_of(slower, scale) <= speed_of(faster, scale),
{
    if scale.denominator != 0 {
        vstd::arithmetic::mul::lemma_mul_inequality(
            slower as int,
            faster as int,
            scale.numerator as int,
        );
        vstd::arithmetic::div_mod::lemma_div_is_ordered(
            slower * scale.numerator,
            faster * scale.numerator,
            scale.denominator as int,
        );
        assert(0 <= slower * scale.numerator) by (nonlinear_arith);
        vstd::arithmetic::div_mod::lemma_div_is_ordered(
            0,
            slower * scale.numerator,
            scale.denominator as int,
        );
    }
}

/// Bringing the state in line with the index follows the table: waiting at
/// index zero, racing below the number of checkpoints, finished from there on.
pub proof fn lemma_state_table(p: LapProgress, checkpoints: nat)
    ensures
        p.index == 0 ==> recomputed(p, checkpoints).state == RaceState::WaitingToStart,
        0 < p.index < checkpoints ==> recomputed(p, checkpoints).state == RaceState::Racing,
        p.index > 0 && p.index >= checkpoints ==> recomputed(p, checkpoints).state
            == RaceState::Finished,
{
}

/// A racer strictly inside the checkpoint that is next reaches it: the lap,
/// unless it is marked finished, moves on by exactly one checkpoint and
/// gains one arrival.
pub proof fn lemma_collect_advances_by_one(ctx: RaceContext, now: u64)
    requires
        ctx.at_checkpoint(ctx.current_checkpoint),
        ctx.race_state != RaceState::Finished,
    ensures
        collected(ctx.progress(), now).index == ctx.current_checkpoint + 1,
        collected(ctx.progress(), now).arrivals.len() == ctx.checkpoint_times@.len() + 1,
{
    assert(ctx.current_checkpoint < ctx.selected_course.unwrap().checkpoints.len());
}

/// Starting over and then bringing the state in line always leaves the lap
/// waiting for its start, with nothing reached.
pub proof fn lemma_restart_waits(p: LapProgress, checkpoints: nat)
    ensures
        recomputed(restarted(p), checkpoints).state == RaceState::WaitingToStart,
        recomputed(restarted(p), checkpoints).index == 0,
        recomputed(restarted(p), checkpoints).arrivals.len() == 0,
{
}

/// A window that holds no more samples than the speed estimate looks at
/// stays so when a sample is taken.
pub proof fn lemma_window_is_bounded(window: Seq<u64>, sample: u64)
    requires
        window.len() <= SPEED_WINDOW,
    ensures
        window_after(window, sample).len() <= SPEED_WINDOW,
        window_after(window, sample).last() == sample,
{
}

/// While every sample in the window is zero, as it is until two positions
/// have been taken in, the speed shown is zero under every scale.
pub proof fn lemma_still_window_shows_zero(window: Seq<u64>, scale: SpeedScale)
    requires
        forall|i: int| 0 <= i < window.len() ==> window[i] == 0,
    ensures
        speed_of(greatest(window), scale) == 0,
{
    lemma_greatest_is_maximum(window);
    assert(greatest(window) == 0);
    assert(0 * scale.numerator == 0);
}

/// A tick keeps a sound lap sound, and a lap that it leaves finished has
/// exactly one arrival for each checkpoint of the course, the last of which
/// is the time of the lap.
pub proof fn lemma_finished_lap_is_complete(ctx: RaceContext, now: u64)
    requires
        ctx.selected_course.is_some(),
        ctx.wf(),
    ensures
        ctx.after_tick(now).arrivals.len() == ctx.after_tick(now).index,
        ctx.after_tick(now).index <= ctx.course_len(),
        ctx.after_tick(now).state == RaceState::Finished ==> ctx.after_tick(now).arrivals.len()
            == ctx.course_len() && ctx.course_len() > 0,
{
    assert(ctx.course_len() == ctx.selected_course.unwrap().checkpoints.len());
}

impl RaceState {
    /// The state that belongs to an index on a course of `checkpoints`
    /// checkpoints: waiting at index zero, racing below the number of
    /// checkpoints, finished from there on.
    pub fn for_index(index: usize, checkpoints: usize) -> (state: RaceState)
        ensures
            state == state_for(index, checkpoints as nat),
    {
        if index == 0 {
            RaceState::WaitingToStart
        } else if index < checkpoints {
            RaceState::Racing
        } else {
            RaceState::Finished
        }
    }
}

impl RaceContext {
    /// The progress of the lap.
    pub open spec fn progress(&self) -> LapProgress {
        LapProgress {
            index: self.current_checkpoint,
            start: self.start_time,
            arrivals: self.checkpoint_times@,
            state: self.race_state,
        }
    }

    /// Whether the lap is sound: it has one arrival for each checkpoint it has
    /// reached, and has reached no more checkpoints than the course has.
    pub open spec fn wf(&self) -> bool {
        &&& self.checkpoint_times@.len() == self.current_checkpoint
        &&& self.current_checkpoint <= self.course_len()
    }

    /// Whether two sessions agree in everything but the progress of the lap.
    pub open spec fn same_session(&self, other: &RaceContext) -> bool {
        &&& self.selected_cup == other.selected_cup
        &&& self.selected_course == other.selected_course
        &&& self.speed_scale == other.speed_scale
        &&& self.instants == other.instants
        &&& self.distance_queue == other.distance_queue
        &&& self.gw2_data == other.gw2_data
    }

    /// How many checkpoints the selected course has; zero without a course.
    pub open spec fn course_len(&self) -> nat {
        match self.selected_course {
            Some(course) => course.checkpoints@.len(),
            None => 0,
        }
    }

    /// Whether the racer is strictly inside checkpoint `index` of the
    /// selected course.
    pub open spec fn at_checkpoint(&self, index: usize) -> bool {
        match self.selected_course {
            Some(course) => index < course.checkpoints@.len() && inside(
                self.gw2_data.racer.position,
                course.checkpoints@[index as int],
            ),
            None => false,
        }
    }

    /// Whether the racer is strictly inside the reset checkpoint of the
    /// selected course.
    pub open spec fn at_reset(&self) -> bool {
        match self.selected_course {
            Some(course) => match course.reset {
                Some(reset) => inside(self.gw2_data.racer.position, reset),
                None => false,
            },
            None => false,
        }
    }

    /// The progress of the lap after one tick at `now`: started over if the
    /// racer is in the reset zone, then moved on if the racer is in the
    /// checkpoint that is next by then, then the state brought in line.
    pub open spec fn after_tick(&self, now: u64) -> LapProgress {
        let begun = if self.at_reset() {
            restarted(self.progress())
        } else {
            self.progress()
        };
        let moved = if self.at_checkpoint(begun.index) {
            collected(begun, now)
        } else {
            begun
        };
        recomputed(moved, self.course_len())
    }

    /// A session without cup or course, waiting at checkpoint 0, its clock
    /// started at `now`, with no sample taken yet.
    pub fn new(data: GW2Data, now: u64) -> (ctx: RaceContext)
        ensures
            ctx.selected_cup.is_none(),
            ctx.selected_course.is_none(),
            ctx.progress() == (LapProgress {
                index: 0,
                start: now,
                arrivals: Seq::empty(),
                state: RaceState::WaitingToStart,
            }),
            ctx.speed_scale == (SpeedScale {
                numerator: DEFAULT_SPEED_NUMERATOR,
                denominator: DEFAULT_SPEED_DENOMINATOR,
            }),
            ctx.instants == (None::<TimePosition>, None::<TimePosition>),
            ctx.distance_queue@ == seq![0u64, 0u64],
            ctx.gw2_data == data,
            ctx.wf(),
    {
        let mut distance_queue: VecDeque<u64> = VecDeque::new();
        distance_queue.push_back(0);
        distance_queue.push_back(0);
        assert(distance_queue@ =~= seq![0u64, 0u64]);
        RaceContext {
            selected_cup: None,
            selected_course: None,
            current_checkpoint: 0usize,
            start_time: now,
            checkpoint_times: Vec::new(),
            race_state: RaceState::WaitingToStart,
            speed_scale: SpeedScale::default(),
            instants: (None, None),
            distance_queue,
            gw2_data: data,
        }
    }

    /// Selects a course that has been loaded, and starts the lap anew on it:
    /// nothing reached, waiting for the start.
    pub fn load_course(&mut self, course: Course)
        ensures
            final(self).selected_course == Some(course),
            final(self).progress() == (LapProgress {
                index: 0,
                start: old(self).start_time,
                arrivals: Seq::empty(),
                state: RaceState::WaitingToStart,
            }),
            final(self).selected_cup == old(self).selected_cup,
            final(self).speed_scale == old(self).speed_scale,
            final(self).instants == old(self).instants,
            final(self).distance_queue == old(self).distance_queue,
            final(self).gw2_data == old(self).gw2_data,
            final(self).wf(),
    {
        self.selected_course = Some(course);
        self.current_checkpoint = 0;
        self.checkpoint_times = Vec::new();
        self.race_state = RaceState::WaitingToStart;
    }

    /// The name of the racer as last read.
    pub fn racer_name(&self) -> (name: &String)
        ensures
            *name == self.gw2_data.racer.name,
    {
        &self.gw2_data.racer.name
    }

    /// The racer's `x` as last read.
    pub fn x(&self) -> (x: i32)
        ensures
            x == self.gw2_data.racer.position.x,
    {
        self.gw2_data.racer.position.x
    }

    /// The racer's `y` as last read.
    pub fn y(&self) -> (y: i32)
        ensures
            y == self.gw2_data.racer.position.y,
    {
        self.gw2_data.racer.position.y
    }

    /// The racer's `z` as last read.
    pub fn z(&self) -> (z: i32)
        ensures
            z == self.gw2_data.racer.position.z,
    {
        self.gw2_data.racer.position.z
    }

    /// Starts the clock of the lap at `now`.
    pub fn start_timer(&mut self, now: u64)
        ensures
            final(self).same_session(old(self)),
            final(self).progress() == (LapProgress { start: now, ..old(self).progress() }),
            old(self).wf() ==> final(self).wf(),
    {
        self.start_time = now;
    }

    /// Starts the lap over, whatever its state: nothing is reached any more.
    /// The state follows at the next `update_state`.
    pub fn restart_course(&mut self)
        ensures
            final(self).same_session(old(self)),
            final(self).progress() == restarted(old(self).progress()),
            old(self).wf() ==> final(self).wf(),
    {
        self.current_checkpoint = 0;
        self.clear_checkpoint_times();
    }

    /// The checkpoint that is next.
    pub fn peek_current_checkpoint(&self) -> (checkpoint: Checkpoint)
        requires
            self.selected_course.is_some(),
            self.current_checkpoint < self.course_len(),
        ensures
            checkpoint == self.selected_course.unwrap().checkpoints@[self.current_checkpoint as int],
    {
        match &self.selected_course {
            Some(course) => course.checkpoints[self.current_checkpoint],
            None => Checkpoint::default(),
        }
    }

    /// Brings the state in line with the index of the next checkpoint.
    pub fn update_state(&mut self)
        requires
            old(self).selected_course.is_some(),
        ensures
            final(self).same_session(old(self)),
            final(self).progress() == recomputed(old(self).progress(), old(self).course_len()),
            old(self).wf() ==> final(self).wf(),
    {
        let checkpoints = match &self.selected_course {
            Some(course) => course.checkpoints.len(),
            None => 0,
        };
        self.race_state = RaceState::for_index(self.current_checkpoint, checkpoints);
    }

    /// Counts the next checkpoint as reached at `now`, unless the lap is
    /// marked finished. A lap that waited for its start starts at `now`.
    pub fn collect_checkpoint(&mut self, now: u64)
        requires
            old(self).current_checkpoint < usize::MAX,
        ensures
            final(self).same_session(old(self)),
            final(self).progress() == collected(old(self).progress(), now),
            old(self).wf() && old(self).current_checkpoint < old(self).course_len()
                ==> final(self).wf(),
    {
        if self.race_state == RaceState::Finished {
            assert(self.checkpoint_times@ =~= old(self).checkpoint_times@);
            return ;
        }
        if self.race_state == RaceState::WaitingToStart {
            self.start_timer(now);
        }
        self.record_checkpoint_time(now);
        self.current_checkpoint += 1;
    }

    /// Whether the racer is strictly inside the checkpoint that is next.
    /// Never so once every checkpoint is reached.
    pub fn is_in_current_checkpoint(&self) -> (within: bool)
        requires
            self.selected_course.is_some(),
        ensures
            within == self.at_checkpoint(self.current_checkpoint),
    {
        let checkpoints = match &self.selected_course {
            Some(course) => course.checkpoints.len(),
            None => 0,
        };
        if self.current_checkpoint < checkpoints {
            let checkpoint = self.peek_current_checkpoint();
            let distance = self.current_cp_distance();
            proof {
                if checkpoint.radius > 0 {
                    lemma_floor_sqrt_below(
                        distance as int,
                        distance_squared_3d(self.gw2_data.racer.position, checkpoint.centre()),
                        checkpoint.radius as int,
                    );
                }
            }
            if checkpoint.radius > 0 && distance < checkpoint.radius as u64 {
                return true
            }
        }
        false
    }

    /// Whether the racer is strictly inside the reset checkpoint. Never so on
    /// a course without one.
    pub fn is_in_reset_checkpoint(&self) -> (within: bool)
        requires
            self.selected_course.is_some(),
        ensures
            within == self.at_reset(),
    {
        let reset = match &self.selected_course {
            Some(course) => course.reset,
            None => None,
        };
        if let (Some(distance), Some(checkpoint)) = (self.reset_cp_distance(), reset) {
            proof {
                if checkpoint.radius > 0 {
                    lemma_floor_sqrt_below(
                        distance as int,
                        distance_squared_3d(self.gw2_data.racer.position, checkpoint.centre()),
                        checkpoint.radius as int,
                    );
                }
            }
            if checkpoint.radius > 0 && distance < checkpoint.radius as u64 {
                return true
            }
        }
        false
    }

    /// The distance from the racer to the centre of the checkpoint that is
    /// next, rounded down.
    pub fn current_cp_distance(&self) -> (distance: u64)
        requires
            self.selected_course.is_some(),
            self.current_checkpoint < self.course_len(),
        ensures
            is_floor_sqrt(
                distance as int,
                distance_squared_3d(
                    self.gw2_data.racer.position,
                    self.selected_course.unwrap().checkpoints@[self.current_checkpoint as int].centre(),
                ),
            ),
    {
        let checkpoint = self.peek_current_checkpoint();
        euclidian_distance_3d(&self.gw2_data.racer.position, &checkpoint.point())
    }

    /// The distance from the racer to the centre of the reset checkpoint,
    /// rounded down; `None` on a course without one.
    pub fn reset_cp_distance(&self) -> (distance: Option<u64>)
        requires
            self.selected_course.is_some(),
        ensures
            match self.selected_course.unwrap().reset {
                Some(reset) => distance.is_some() && is_floor_sqrt(
                    distance.unwrap() as int,
                    distance_squared_3d(self.gw2_data.racer.position, reset.centre()),
                ),
                None => distance.is_none(),
            },
    {
        let reset = match &self.selected_course {
            Some(course) => course.reset,
            None => None,
        };
        if let Some(reset) = reset {
            return Some(euclidian_distance_3d(&self.gw2_data.racer.position, &reset.point()))
        }
        None
    }

    /// Takes in a reading of the game made at `now`: it becomes the later of
    /// the last two samples, and the distance between the two enters the
    /// window of the speed estimate.
    pub fn update(&mut self, data: GW2Data, now: u64)
        ensures
            final(self).gw2_data == data,
            final(self).instants == (
                old(self).instants.1,
                Some(TimePosition { time: now, position: data.racer.position }),
            ),
            final(self).distance_queue@ == window_after(
                old(self).distance_queue@,
                sample_distance(final(self).instants) as u64,
            ),
            final(self).selected_cup == old(self).selected_cup,
            final(self).selected_course == old(self).selected_course,
            final(self).speed_scale == old(self).speed_scale,
            final(self).current_checkpoint == old(self).current_checkpoint,
            final(self).start_time == old(self).start_time,
            final(self).checkpoint_times == old(self).checkpoint_times,
            final(self).race_state == old(self).race_state,
            old(self).wf() ==> final(self).wf(),
    {
        self.gw2_data = data;
        self.instants.0 = self.instants.1;
        self.instants.1 = Some(
            TimePosition { time: now, position: self.gw2_data.racer.position },
        );
        let sample = self.dist_per_poll();
        self.distance_queue.push_back(sample);
        if self.distance_queue.len() > SPEED_WINDOW {
            self.distance_queue.pop_front();
        }
    }

    /// One tick of the lap at `now`, for the position last taken in. A racer
    /// in the reset zone starts the lap over; then a racer in the checkpoint
    /// that is next reaches it; then the state is brought in line. Reports
    /// whether the lap was started over and whether this tick finished it.
    /// Without a course nothing happens.
    pub fn tick(&mut self, now: u64) -> (events: TickEvents)
        ensures
            final(self).same_session(old(self)),
            old(self).selected_course.is_some() ==> final(self).progress() == old(self).after_tick(
                now,
            ),
            old(self).selected_course.is_none() ==> final(self).progress() == old(self).progress(),
            events.restarted == old(self).at_reset(),
            events.finished == (old(self).selected_course.is_some() && old(self).race_state
                != RaceState::Finished && final(self).race_state == RaceState::Finished),
            old(self).wf() ==> final(self).wf(),
    {
        if self.selected_course.is_none() {
            assert(self.checkpoint_times@ =~= old(self).checkpoint_times@);
            return TickEvents { restarted: false, finished: false };
        }
        let restarted = self.is_in_reset_checkpoint();
        if restarted {
            self.restart_course();
        }
        if self.is_in_current_checkpoint() {
            assert(self.current_checkpoint < self.selected_course.unwrap().checkpoints.len());
            self.collect_checkpoint(now);
        }
        let old_racestate = self.race_state;
        self.update_state();
        let finished = self.race_state != old_racestate && self.race_state == RaceState::Finished;
        TickEvents { restarted, finished }
    }

    /// The speed shown: the greatest distance in the window, scaled.
    pub fn filtered_speed(&self) -> (speed: i32)
        ensures
            speed == speed_of(greatest(self.distance_queue@), self.speed_scale),
    {
        let distance = self.filtered_distance();
        if self.speed_scale.denominator == 0 {
            return 0;
        }
        assert(distance * self.speed_scale.numerator <= 0xffff_ffff_ffff_ffff
            * 0xffff_ffff_ffff_ffff) by (nonlinear_arith)
            requires
                0 <= distance <= 0xffff_ffff_ffff_ffff,
                0 <= self.speed_scale.numerator <= 0xffff_ffff_ffff_ffff,
        ;
        let product: u128 = distance as u128 * self.speed_scale.numerator as u128;
        let scaled: u128 = product / self.speed_scale.denominator as u128;
        if scaled > i32::MAX as u128 {
            i32::MAX
        } else {
            scaled as i32
        }
    }

    /// The greatest distance in the window.
    pub fn filtered_distance(&self) -> (distance: u64)
        ensures
            distance == greatest(self.distance_queue@),
    {
        let mut distance: u64 = 0;
        let mut idx: usize = 0;
        while idx < self.distance_queue.len()
            invariant
                idx <= self.distance_queue@.len(),
                distance == greatest(self.distance_queue@.take(idx as int)),
            decreases self.distance_queue@.len() - idx,
        {
            let sample = self.distance_queue[idx];
            proof {
                let seen = self.distance_queue@.take(idx + 1);
                assert(seen.drop_last() =~= self.distance_queue@.take(idx as int));
                assert(seen.last() == sample);
            }
            if sample >= distance {
                distance = sample;
            }
            idx += 1;
        }
        assert(self.distance_queue@.take(self.distance_queue@.len() as int)
            =~= self.distance_queue@);
        distance
    }

    /// The distance between the last two samples as seen from above.
    pub fn dist_per_poll(&self) -> (distance: u64)
        ensures
            distance == sample_distance(self.instants),
    {
        match (self.instants.0, self.instants.1) {
            (Some(earlier), Some(later)) => euclidian_distance_2d(
                &earlier.position,
                &later.position,
            ),
            _ => 0,
        }
    }

    /// The time between the last two samples; zero while there are not yet
    /// two.
    pub fn time_per_poll(&self) -> (millis: u64)
        ensures
            millis == match self.instants {
                (Some(earlier), Some(later)) => elapsed(earlier.time, later.time),
                _ => 0,
            },
    {
        match (self.instants.0, self.instants.1) {
            (Some(earlier), Some(later)) => later.time.saturating_sub(earlier.time),
            _ => 0,
        }
    }

    fn record_checkpoint_time(&mut self, now: u64)
        ensures
            final(self).same_session(old(self)),
            final(self).progress() == (LapProgress {
                arrivals: old(self).checkpoint_times@.push(elapsed(old(self).start_time, now)),
                ..old(self).progress()
            }),
    {
        self.checkpoint_times.push(now.saturating_sub(self.start_time))
    }

    fn clear_checkpoint_times(&mut self)
        ensures
            final(self).same_session(old(self)),
            final(self).progress() == (LapProgress {
                arrivals: Seq::empty(),
                ..old(self).progress()
            }),
    {
        self.checkpoint_times = Vec::new();
    }
}

} // verus!
