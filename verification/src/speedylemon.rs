//! The program round the session: which screen is shown, what a key does,
//! when a sample is logged, where files go, and the lines of the panels.

use crate::beetlerank::Rank;
use crate::beetlerank::Ranking;
use crate::speedometer::elapsed;
use crate::speedometer::greatest;
use crate::speedometer::lemma_speed_is_monotonic;
use crate::speedometer::speed_of;
use crate::speedometer::RaceContext;
use crate::speedometer::RaceState;
use crate::splits::RaceLap;
use crate::text::decimal;
use crate::text::decimal_string;
use crate::text::filled_left;
use crate::text::filled_right;
use crate::text::push_decimal;
use crate::text::push_filled_left;
use crate::text::push_filled_right;
use crate::track_selector::TrackSelectorState;
use crate::util::timestamp_text;
use crate::util::Timestamp;
use crate::window::line_width;
use crate::window::push_lines;
use crate::window::width_of;
use vstd::prelude::*;
use vstd::string::StringExecFns;

verus! {

/// Milliseconds between two ticks.
pub const TICK_RATE: u64 = 10;

/// Milliseconds between two samples of the race log.
pub const LOG_DELTA: u64 = 30;

/// The screen that the program shows.
#[derive(PartialEq, Eq, Structural, Clone, Copy, Debug)]
pub enum ProgramState {
    Quit,
    TrackSelector,
    TrackCreator,
    Speedometer,
}

/// A key that was pressed.
#[derive(PartialEq, Eq, Structural, Clone, Copy, Debug)]
pub enum Key {
    Char(char),
    Up,
    Down,
    Left,
    Right,
    Other,
}

/// What is to be done after a key, besides changing screens.
#[derive(PartialEq, Eq, Structural, Clone, Copy, Debug)]
pub enum Action {
    Nothing,
    /// Start the lap over and drop the race log.
    RestartCourse,
    /// Drop the checkpoints and the reset checkpoint of the course that is
    /// being created.
    ClearCreatedCourse,
    /// Put the reset checkpoint of the course that is being created where
    /// the racer is.
    SetCreatedReset,
    /// Add a checkpoint to the course that is being created where the racer
    /// is.
    AddCreatedCheckpoint,
    /// Write the course that is being created out.
    ExportCreatedCourse,
    ToggleDebug,
    /// Move the selection of the list up.
    SelectPrevious,
    /// Move the selection of the list down.
    SelectNext,
    /// Take the selected cup and list its tracks.
    OpenCup,
    /// Load the selected track and its record.
    LoadTrack,
    /// List the cups again.
    ShowCups,
}

/// What a key leads to.
#[derive(PartialEq, Eq, Structural, Clone, Copy, Debug)]
pub struct KeyOutcome {
    pub state: ProgramState,
    pub selector: TrackSelectorState,
    pub action: Action,
}

/// The name of a screen.
pub open spec fn state_name(state: ProgramState) -> Seq<char> {
    match state {
        ProgramState::TrackSelector => "Track Selector"@,
        ProgramState::TrackCreator => "Track Creator"@,
        ProgramState::Speedometer => "Speedometer"@,
        ProgramState::Quit => "Quit"@,
    }
}

/// The screen after a key.
pub open spec fn state_after(state: ProgramState, selector: TrackSelectorState, key: Key) -> ProgramState {
    match key {
        Key::Char(c) => if c == 'q' {
            ProgramState::Quit
        } else if c == 'c' {
            match state {
                ProgramState::Speedometer => ProgramState::TrackCreator,
                ProgramState::TrackCreator => ProgramState::Speedometer,
                _ => state,
            }
        } else if c == 't' {
            match state {
                ProgramState::Speedometer => ProgramState::TrackSelector,
                ProgramState::TrackSelector => ProgramState::Speedometer,
                _ => state,
            }
        } else {
            state
        },
        Key::Right => if selector == TrackSelectorState::SelectTrack {
            ProgramState::Speedometer
        } else {
            state
        },
        _ => state,
    }
}

/// The step of the track selector after a key.
pub open spec fn selector_after(selector: TrackSelectorState, key: Key) -> TrackSelectorState {
    match key {
        Key::Right => if selector == TrackSelectorState::SelectCup {
            TrackSelectorState::SelectTrack
        } else {
            selector
        },
        Key::Left => if selector == TrackSelectorState::SelectTrack {
            TrackSelectorState::SelectCup
        } else {
            selector
        },
        _ => selector,
    }
}

/// What is to be done after a key.
pub open spec fn action_after(state: ProgramState, selector: TrackSelectorState, key: Key) -> Action {
    match key {
        Key::Char(c) => if c == 'r' {
            match state {
                ProgramState::Speedometer => Action::RestartCourse,
                ProgramState::TrackCreator => Action::ClearCreatedCourse,
                _ => Action::Nothing,
            }
        } else if c == 'd' {
            Action::ToggleDebug
        } else if state == ProgramState::TrackCreator && c == 'R' {
            Action::SetCreatedReset
        } else if state == ProgramState::TrackCreator && c == 'n' {
            Action::AddCreatedCheckpoint
        } else if state == ProgramState::TrackCreator && c == 'e' {
            Action::ExportCreatedCourse
        } else {
            Action::Nothing
        },
        Key::Up => Action::SelectPrevious,
        Key::Down => Action::SelectNext,
        Key::Right => match selector {
            TrackSelectorState::SelectCup => Action::OpenCup,
            TrackSelectorState::SelectTrack => Action::LoadTrack,
            TrackSelectorState::Unselected => Action::Nothing,
        },
        Key::Left => if selector == TrackSelectorState::SelectTrack {
            Action::ShowCups
        } else {
            Action::Nothing
        },
        Key::Other => Action::Nothing,
    }
}

/// Whether a cup holds the user's own tracks, of which the leaderboard
/// knows nothing.
pub open spec fn is_custom(cup: Seq<char>) -> bool {
    cup == "CUSTOM TRACKS"@
}

/// Where the race log of a lap goes.
pub open spec fn log_path_text(track: Seq<char>, laptime: u64) -> Seq<char> {
    "./data/logs/"@ + track + "_"@ + decimal(laptime as nat) + ".csv"@
}

/// Where the record of a track is kept.
pub open spec fn splits_path_text(track: Seq<char>) -> Seq<char> {
    "./data/splits/"@ + track + ".toml"@
}

/// Where the checkpoints of a track are kept.
pub open spec fn course_path_text(track: Seq<char>) -> Seq<char> {
    "data/courses/"@ + track + ".csv"@
}

/// The time that a lap took up to checkpoint `idx`, zero where it has not
/// come that far.
pub open spec fn time_at(checkpoint_times: Seq<u64>, idx: int) -> u64 {
    if 0 <= idx < checkpoint_times.len() {
        checkpoint_times[idx]
    } else {
        0
    }
}

/// How the segment that ends at checkpoint `idx` compares with the same
/// segment of the fastest lap: nothing without a record, beyond its
/// segments, or where the segment took no time yet; else the time the
/// segment was faster, behind a minus, or slower, behind a plus.
pub open spec fn delta_text(checkpoint_times: Seq<u64>, pb: Option<RaceLap>, idx: int) -> Seq<char> {
    let taken = elapsed(time_at(checkpoint_times, idx - 1), time_at(checkpoint_times, idx));
    match pb {
        Some(lap) => if idx - 1 < lap.splits.pb@.len() {
            let split = lap.splits.pb@[idx - 1];
            if taken == 0 {
                Seq::empty()
            } else if split > taken {
                seq!['-'] + timestamp_text((split - taken) as u64)
            } else {
                seq!['+'] + timestamp_text((taken - split) as u64)
            }
        } else {
            Seq::empty()
        },
        None => Seq::empty(),
    }
}

/// The line of the panel for checkpoint `idx`.
pub open spec fn checkpoint_row_text(checkpoint_times: Seq<u64>, pb: Option<RaceLap>, idx: int) -> Seq<
    char,
> {
    let time = if time_at(checkpoint_times, idx) > 0 {
        timestamp_text(time_at(checkpoint_times, idx))
    } else {
        Seq::empty()
    };
    "Checkpoint: "@ + filled_left(decimal(idx as nat), 2, ' ') + ", Time: "@ + filled_right(
        time,
        9,
        ' ',
    ) + ", PB: "@ + filled_right(delta_text(checkpoint_times, pb, idx), 9, ' ')
}

/// The lines of the panel for the checkpoints of a course, from the second
/// one on.
pub open spec fn checkpoint_rows_text(checkpoints: int, checkpoint_times: Seq<u64>, pb: Option<RaceLap>) -> Seq<
    Seq<char>,
> {
    Seq::new(
        if checkpoints > 1 {
            (checkpoints - 1) as nat
        } else {
            0
        },
        |i: int| checkpoint_row_text(checkpoint_times, pb, i + 1),
    )
}

/// The line of a ranking for one racer, the name filled up to `padding`.
pub open spec fn rank_row_text(rank: Rank, padding: int) -> Seq<char> {
    filled_left(decimal(rank.rank as nat), 2, ' ') + ": "@ + filled_right(rank.name@, padding, ' ')
        + " "@ + rank.timestamp@
}

/// The width of the widest name of some lines of a ranking.
pub open spec fn widest_name(ranks: Seq<Rank>) -> nat
    decreases ranks.len(),
{
    if ranks.len() == 0 {
        0
    } else {
        let rest = widest_name(ranks.drop_last());
        if width_of(ranks.last().name@) >= rest {
            width_of(ranks.last().name@)
        } else {
            rest
        }
    }
}

/// The width that the names of a ranking are filled up to.
pub open spec fn rank_padding(ranking: Ranking) -> nat {
    match ranking.you {
        Some(you) => if widest_name(you@) >= widest_name(ranking.top_3@) {
            widest_name(you@)
        } else {
            widest_name(ranking.top_3@)
        },
        None => widest_name(ranking.top_3@),
    }
}

/// The lines of a ranking: the first three, and behind a line of dots the
/// lines round the user's own, where there are any.
pub open spec fn rank_text(ranking: Ranking) -> Seq<Seq<char>> {
    let top = Seq::new(
        ranking.top_3@.len(),
        |i: int| rank_row_text(ranking.top_3@[i], rank_padding(ranking) as int),
    );
    match ranking.you {
        Some(you) => top + seq!["..."@] + Seq::new(
            you@.len(),
            |i: int| rank_row_text(you@[i], rank_padding(ranking) as int),
        ),
        None => top,
    }
}

/// The lines that are shown when a lap is finished.
pub open spec fn race_finished_text(
    laptime: u64,
    beetlerank_best: Option<u64>,
    pb: Option<RaceLap>,
    upload_response: Seq<Seq<char>>,
) -> Seq<Seq<char>> {
    seq!["Race Finished!"@] + (match beetlerank_best {
        Some(best) => seq!["Beetlerank Best Time: "@ + timestamp_text(best)],
        None => Seq::empty(),
    }) + (match pb {
        Some(lap) => seq!["Local Best Time: "@ + timestamp_text(lap.pb_laptime)],
        None => Seq::empty(),
    }) + seq!["Lap Time: "@ + timestamp_text(laptime)] + upload_response
}

/// Whether the panel of the session shows the leaderboard: on the screen of
/// the session, unless the cup holds the user's own tracks.
pub open spec fn shows_ranking(state: ProgramState, cup: Option<String>) -> bool {
    state == ProgramState::Speedometer && match cup {
        Some(name) => !is_custom(name@),
        None => true,
    }
}

/// The lines of the panel of the session: the track, the leaderboard where
/// it is given, the checkpoint that is next, the distances to it and to the
/// reset checkpoint as the caller has written them, the speed, and the times
/// at the checkpoints.
pub open spec fn speedometer_text(
    ctx: RaceContext,
    ranking: Option<&Ranking>,
    pb: Option<RaceLap>,
    next_distance: Seq<char>,
    reset_distance: Seq<char>,
) -> Seq<Seq<char>> {
    seq!["Track: "@ + ctx.selected_course.unwrap().name@] + (match ranking {
        Some(r) => rank_text(*r),
        None => Seq::empty(),
    }) + seq![
        "---"@,
        "Checkpoint: "@ + decimal(ctx.current_checkpoint as nat),
        "Distance to next checkpoint: "@ + next_distance,
        "Distance to reset checkpoint: "@ + reset_distance,
        "Speed: "@ + decimal(speed_of(greatest(ctx.distance_queue@), ctx.speed_scale) as nat),
        "----- Checkpoint Times -----"@,
    ] + checkpoint_rows_text(ctx.course_len() as int, ctx.checkpoint_times@, pb)
}

impl ProgramState {
    /// The name of the screen.
    pub fn name(&self) -> (text: String)
        ensures
            text@ == state_name(*self),
    {
        String::from_str(
            match *self {
                Self::TrackSelector => "Track Selector",
                Self::TrackCreator => "Track Creator",
                Self::Speedometer => "Speedometer",
                Self::Quit => "Quit",
            },
        )
    }
}

/// Works out what a key leads to on a screen and at a step of the track
/// selector. The screen and the step are those that hold once the action is
/// done.
pub fn handle_key(state: ProgramState, selector: TrackSelectorState, key: Key) -> (outcome:
    KeyOutcome)
    ensures
        outcome.state == state_after(state, selector, key),
        outcome.selector == selector_after(selector, key),
        outcome.action == action_after(state, selector, key),
{
    let mut outcome = KeyOutcome { state, selector, action: Action::Nothing };
    match key {
        Key::Char(c) => {
            if c == 'q' {
                outcome.state = ProgramState::Quit;
            } else if c == 'r' {
                match state {
                    ProgramState::Speedometer => {
                        outcome.action = Action::RestartCourse;
                    },
                    ProgramState::TrackCreator => {
                        outcome.action = Action::ClearCreatedCourse;
                    },
                    _ => {},
                }
            } else if c == 'R' {
                match state {
                    ProgramState::TrackCreator => {
                        outcome.action = Action::SetCreatedReset;
                    },
                    _ => {},
                }
            } else if c == 'd' {
                outcome.action = Action::ToggleDebug;
            } else if c == 'c' {
                outcome.state =
                match state {
                    ProgramState::Speedometer => ProgramState::TrackCreator,
                    ProgramState::TrackCreator => ProgramState::Speedometer,
                    _ => state,
                };
            } else if c == 'n' {
                match state {
                    ProgramState::TrackCreator => {
                        outcome.action = Action::AddCreatedCheckpoint;
                    },
                    _ => {},
                }
            } else if c == 'e' {
                match state {
                    ProgramState::TrackCreator => {
                        outcome.action = Action::ExportCreatedCourse;
                    },
                    _ => {},
                }
            } else if c == 't' {
                outcome.state =
                match state {
                    ProgramState::Speedometer => ProgramState::TrackSelector,
                    ProgramState::TrackSelector => ProgramState::Speedometer,
                    _ => state,
                };
            }
        },
        Key::Up => {
            outcome.action = Action::SelectPrevious;
        },
        Key::Down => {
            outcome.action = Action::SelectNext;
        },
        Key::Right => {
            match selector {
                TrackSelectorState::SelectCup => {
                    outcome.action = Action::OpenCup;
                    outcome.selector = TrackSelectorState::SelectTrack;
                },
                TrackSelectorState::SelectTrack => {
                    outcome.action = Action::LoadTrack;
                    outcome.state = ProgramState::Speedometer;
                },
                _ => {},
            }
        },
        Key::Left => {
            match selector {
                TrackSelectorState::SelectTrack => {
                    outcome.action = Action::ShowCups;
                    outcome.selector = TrackSelectorState::SelectCup;
                },
                _ => {},
            }
        },
        _ => {},
    }
    outcome
}

/// Whether a sample of the race log is due: a lap is running, and the time
/// between two samples has passed since the last one.
pub fn log_is_due(since_last_log: u64, race_state: RaceState) -> (due: bool)
    ensures
        due == (since_last_log >= LOG_DELTA && race_state == RaceState::Racing),
{
    since_last_log >= LOG_DELTA && race_state == RaceState::Racing
}

/// Whether a cup holds the user's own tracks.
pub fn is_custom_cup(cup: &String) -> (custom: bool)
    ensures
        custom == is_custom(cup@),
{
    *cup == String::from_str("CUSTOM TRACKS")
}

/// Where the race log of a lap goes.
pub fn log_path(track: &String, laptime: u64) -> (path: String)
    ensures
        path@ == log_path_text(track@, laptime),
{
    let mut path = String::from_str("./data/logs/");
    path.append(track.as_str());
    path.append("_");
    push_decimal(&mut path, laptime);
    path.append(".csv");
    path
}

/// Where the record of a track is kept.
pub fn splits_path(track: &String) -> (path: String)
    ensures
        path@ == splits_path_text(track@),
{
    let mut path = String::from_str("./data/splits/");
    path.append(track.as_str());
    path.append(".toml");
    path
}

/// Where the checkpoints of a track are kept.
pub fn course_path(track: &String) -> (path: String)
    ensures
        path@ == course_path_text(track@),
{
    let mut path = String::from_str("data/courses/");
    path.append(track.as_str());
    path.append(".csv");
    path
}

/// The time that a lap took up to checkpoint `idx`.
fn time_of(checkpoint_times: &Vec<u64>, idx: usize) -> (time: u64)
    ensures
        time == time_at(checkpoint_times@, idx as int),
{
    if idx < checkpoint_times.len() {
        checkpoint_times[idx]
    } else {
        0
    }
}

/// The line of the panel for checkpoint `idx`: its number, the time of the
/// lap up to it, and how its segment compares with the fastest lap.
pub fn checkpoint_row(checkpoint_times: &Vec<u64>, pb: &Option<RaceLap>, idx: usize) -> (row: String)
    requires
        idx >= 1,
    ensures
        row@ == checkpoint_row_text(checkpoint_times@, *pb, idx as int),
{
    let dur = time_of(checkpoint_times, idx);
    let cpdelta = dur.saturating_sub(time_of(checkpoint_times, idx - 1));
    let mut delta = String::new();
    if let Some(lap) = pb {
        // Against a record that this very lap has just set, every segment
        // compares as "+00:00:000".
        if idx - 1 < lap.splits.pb.len() {
            let split = lap.splits.pb[idx - 1];
            if cpdelta == 0 {
            } else if split > cpdelta {
                delta.push('-');
                delta.append((split - cpdelta).timestamp().as_str());
            } else {
                delta.push('+');
                delta.append((cpdelta - split).timestamp().as_str());
            }
        }
    }
    assert(delta@ =~= delta_text(checkpoint_times@, *pb, idx as int));
    let time = if dur > 0 {
        dur.timestamp()
    } else {
        String::new()
    };
    let mut row = String::from_str("Checkpoint: ");
    push_filled_left(&mut row, decimal_string(idx as u64).as_str(), 2, ' ');
    row.append(", Time: ");
    push_filled_right(&mut row, time.as_str(), 9, ' ');
    row.append(", PB: ");
    push_filled_right(&mut row, delta.as_str(), 9, ' ');
    row
}

/// The lines of the panel for the checkpoints of a course of `checkpoints`
/// checkpoints, from the second one on.
pub fn checkpoint_rows(checkpoints: usize, checkpoint_times: &Vec<u64>, pb: &Option<RaceLap>) -> (rows:
    Vec<String>)
    ensures
        rows.deep_view() == checkpoint_rows_text(checkpoints as int, checkpoint_times@, *pb),
{
    let mut rows: Vec<String> = Vec::new();
    let mut idx: usize = 1;
    while idx < checkpoints
        invariant
            1 <= idx,
            idx <= checkpoints || idx == 1,
            rows@.len() == idx - 1,
            forall|i: int|
                0 <= i < rows@.len() ==> (#[trigger] rows@[i])@ == checkpoint_row_text(
                    checkpoint_times@,
                    *pb,
                    i + 1,
                ),
        decreases checkpoints - idx,
    {
        rows.push(checkpoint_row(checkpoint_times, pb, idx));
        idx += 1;
    }

    assert(rows.deep_view() =~= checkpoint_rows_text(checkpoints as int, checkpoint_times@, *pb));
    rows
}

/// The width of the widest name of some lines of a ranking.
fn name_width(ranks: &Vec<Rank>) -> (width: usize)
    ensures
        width == widest_name(ranks@),
{
    let mut width: usize = 0;
    let mut idx: usize = 0;
    while idx < ranks.len()
        invariant
            idx <= ranks.len(),
            width == widest_name(ranks@.take(idx as int)),
        decreases ranks.len() - idx,
    {
        let here = line_width(ranks[idx].name.as_str());
        proof {
            let seen = ranks@.take(idx + 1);
            assert(seen.drop_last() =~= ranks@.take(idx as int));
            assert(seen.last() == ranks@[idx as int]);
        }
        if here >= width {
            width = here;
        }
        idx += 1;
    }
    assert(ranks@.take(ranks.len() as int) =~= ranks@);
    width
}

/// The line of a ranking for one racer.
fn rank_row(rank: &Rank, padding: usize) -> (row: String)
    ensures
        row@ == rank_row_text(*rank, padding as int),
{
    let mut row = String::new();
    push_filled_left(&mut row, decimal_string(rank.rank as u64).as_str(), 2, ' ');
    row.append(": ");
    push_filled_right(&mut row, rank.name.as_str(), padding, ' ');
    row.append(" ");
    row.append(rank.timestamp.as_str());
    assert(row@ =~= rank_row_text(*rank, padding as int));
    row
}

/// Adds the lines of some racers to a panel.
fn push_rank_rows(lines: &mut Vec<String>, ranks: &Vec<Rank>, padding: usize)
    ensures
        final(lines).deep_view() == old(lines).deep_view() + Seq::new(
            ranks@.len(),
            |i: int| rank_row_text(ranks@[i], padding as int),
        ),
{
    let ghost before = lines.deep_view();
    let ghost rows = Seq::new(ranks@.len(), |i: int| rank_row_text(ranks@[i], padding as int));
    let mut idx: usize = 0;
    assert(lines.deep_view() =~= before + rows.take(0));
    while idx < ranks.len()
        invariant
            idx <= ranks.len(),
            rows == Seq::new(ranks@.len(), |i: int| rank_row_text(ranks@[i], padding as int)),
            lines.deep_view() == before + rows.take(idx as int),
        decreases ranks.len() - idx,
    {
        let ghost held = lines.deep_view();
        lines.push(rank_row(&ranks[idx], padding));
        assert(lines.deep_view() =~= held.push(rows[idx as int]));
        assert(held.push(rows[idx as int]) =~= before + rows.take(idx + 1));
        idx += 1;
    }
    assert(rows.take(ranks.len() as int) =~= rows);
}

/// The lines of a ranking.
pub fn rank(ranking: &Ranking) -> (lines: Vec<String>)
    ensures
        lines.deep_view() == rank_text(*ranking),
{
    let mut lines: Vec<String> = Vec::new();
    let top_ranks = &ranking.top_3;
    let top_timestamp_padding: usize = name_width(top_ranks);
    assert(lines.deep_view() =~= Seq::<Seq<char>>::empty());

    if let Some(you) = &ranking.you {
        let local_timestamp_padding: usize = name_width(you);
        let padding = if local_timestamp_padding >= top_timestamp_padding {
            local_timestamp_padding
        } else {
            top_timestamp_padding
        };
        push_rank_rows(&mut lines, top_ranks, padding);
        let ghost top = lines.deep_view();
        lines.push(String::from_str("..."));
        assert(lines.deep_view() =~= top + seq!["..."@]);
        push_rank_rows(&mut lines, you, padding);
        assert(lines.deep_view() =~= rank_text(*ranking));
    } else {
        push_rank_rows(&mut lines, top_ranks, top_timestamp_padding);
        assert(lines.deep_view() =~= rank_text(*ranking));
    }
    lines
}

/// Whether the panel of the session shows the leaderboard.
pub fn wants_ranking(state: ProgramState, cup: &Option<String>) -> (wanted: bool)
    ensures
        wanted == shows_ranking(state, *cup),
{
    state == ProgramState::Speedometer && match cup {
        Some(name) => !is_custom_cup(name),
        None => true,
    }
}

/// The lines of the panel of the session. The two distances come as the
/// caller has written them.
pub fn speedometer(
    ctx: &RaceContext,
    ranking: Option<&Ranking>,
    pb: &Option<RaceLap>,
    next_distance: &str,
    reset_distance: &str,
) -> (lines: Vec<String>)
    requires
        ctx.selected_course.is_some(),
    ensures
        lines.deep_view() == speedometer_text(*ctx, ranking, *pb, next_distance@, reset_distance@),
{
    let mut lines: Vec<String> = Vec::new();
    let checkpoints = match &ctx.selected_course {
        Some(course) => {
            let mut line = String::from_str("Track: ");
            line.append(course.name.as_str());
            lines.push(line);
            course.checkpoints.len()
        },
        None => 0,
    };
    assert(lines.deep_view() =~= seq!["Track: "@ + ctx.selected_course.unwrap().name@]);

    if let Some(r) = ranking {
        push_lines(&mut lines, &rank(r));
    }
    let ghost head = lines.deep_view();
    assert(head =~= seq!["Track: "@ + ctx.selected_course.unwrap().name@] + (match ranking {
        Some(r) => rank_text(*r),
        None => Seq::empty(),
    }));

    lines.push(String::from_str("---"));
    let mut line = String::from_str("Checkpoint: ");
    push_decimal(&mut line, ctx.current_checkpoint as u64);
    lines.push(line);
    let mut line = String::from_str("Distance to next checkpoint: ");
    line.append(next_distance);
    lines.push(line);
    let mut line = String::from_str("Distance to reset checkpoint: ");
    line.append(reset_distance);
    lines.push(line);
    let speed = ctx.filtered_speed();
    proof {
        lemma_speed_is_monotonic(0, greatest(ctx.distance_queue@), ctx.speed_scale);
        assert(0 * ctx.speed_scale.numerator == 0);
    }
    let mut line = String::from_str("Speed: ");
    push_decimal(&mut line, speed as u64);
    lines.push(line);
    lines.push(String::from_str("----- Checkpoint Times -----"));
    assert(lines.deep_view() =~= head + seq![
        "---"@,
        "Checkpoint: "@ + decimal(ctx.current_checkpoint as nat),
        "Distance to next checkpoint: "@ + next_distance@,
        "Distance to reset checkpoint: "@ + reset_distance@,
        "Speed: "@ + decimal(speed_of(greatest(ctx.distance_queue@), ctx.speed_scale) as nat),
        "----- Checkpoint Times -----"@,
    ]);
    push_lines(&mut lines, &checkpoint_rows(checkpoints, &ctx.checkpoint_times, pb));
    lines
}

/// The lines that are shown when a lap is finished: the leaderboard's best
/// time of the user and the best time on record, where there are any, the
/// time of the lap, and what the leaderboard answered to the upload.
pub fn race_finished(
    laptime: u64,
    beetlerank_best: Option<u64>,
    pb: &Option<RaceLap>,
    upload_response: &Vec<String>,
) -> (lines: Vec<String>)
    ensures
        lines.deep_view() == race_finished_text(
            laptime,
            beetlerank_best,
            *pb,
            upload_response.deep_view(),
        ),
{
    let mut lines: Vec<String> = Vec::new();
    lines.push(String::from_str("Race Finished!"));
    assert(lines.deep_view() =~= seq!["Race Finished!"@]);
    if let Some(best_time) = beetlerank_best {
        let ghost held = lines.deep_view();
        let mut line = String::from_str("Beetlerank Best Time: ");
        line.append(best_time.timestamp().as_str());
        lines.push(line);
        assert(lines.deep_view() =~= held + seq!["Beetlerank Best Time: "@ + timestamp_text(best_time)]);
    }
    if let Some(rl) = pb {
        let ghost held = lines.deep_view();
        let mut line = String::from_str("Local Best Time: ");
        line.append(rl.pb_laptime.timestamp().as_str());
        lines.push(line);
        assert(lines.deep_view() =~= held + seq!["Local Best Time: "@ + timestamp_text(rl.pb_laptime)]);
    }
    let ghost held = lines.deep_view();
    let mut line = String::from_str("Lap Time: ");
    line.append(laptime.timestamp().as_str());
    lines.push(line);
    assert(lines.deep_view() =~= held + seq!["Lap Time: "@ + timestamp_text(laptime)]);

    push_lines(&mut lines, upload_response);
    lines
}

} // verus!
