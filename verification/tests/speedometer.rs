use speedylemon::checkpoint::Checkpoint;
use speedylemon::checkpoint::Stepname;
use speedylemon::course::Course;
use speedylemon::guild_wars_handler::GW2Data;
use speedylemon::speedometer::RaceContext;
use speedylemon::speedometer::RaceState;
use speedylemon::speedometer::SpeedScale;
use speedylemon::speedometer::TickEvents;
use speedylemon::speedometer::TimePosition;
use speedylemon::speedometer::DEFAULT_SPEED_DENOMINATOR;
use speedylemon::speedometer::DEFAULT_SPEED_NUMERATOR;
use speedylemon::util::Position;
use std::collections::VecDeque;

fn at(x: i32, y: i32, z: i32) -> GW2Data {
    let mut data = GW2Data::new();
    data.racer.position = Position { x, y, z };
    data
}

/// Checkpoints of radius 10 at x = 0, 100, 200, ..., and a reset zone of
/// radius 10 at x = -100.
fn line_course(checkpoints: usize) -> Course {
    let mut course = Course::new();
    for i in 0..checkpoints {
        course.push_cp(100 * i as i32, 0, 0, 10);
    }
    course.add_reset(-100, 0, 0, 10);
    course
}

fn session(checkpoints: usize) -> RaceContext {
    let mut ctx = RaceContext::new(at(50, 0, 0), 1_000);
    ctx.load_course(line_course(checkpoints));
    ctx
}

fn step(ctx: &mut RaceContext, x: i32, now: u64) -> TickEvents {
    ctx.update(at(x, 0, 0), now);
    ctx.tick(now)
}

#[test]
fn new_session_waits_at_the_first_checkpoint() {
    let ctx = RaceContext::new(GW2Data::new(), 77);
    assert!(ctx.selected_cup.is_none());
    assert!(ctx.selected_course.is_none());
    assert_eq!(ctx.current_checkpoint, 0);
    assert_eq!(ctx.start_time, 77);
    assert!(ctx.checkpoint_times.is_empty());
    assert_eq!(ctx.race_state, RaceState::WaitingToStart);
    assert_eq!(ctx.instants, (None, None));
    assert_eq!(ctx.distance_queue, VecDeque::from(vec![0, 0]));
    assert_eq!(ctx.speed_scale, SpeedScale { numerator: DEFAULT_SPEED_NUMERATOR, denominator: DEFAULT_SPEED_DENOMINATOR });
    assert_eq!(ctx.x(), 0);
    assert_eq!(ctx.y(), 0);
    assert_eq!(ctx.z(), 0);
    assert_eq!(ctx.racer_name(), "");
}

#[test]
fn getters_read_the_last_reading() {
    let mut data = at(1, -2, 3);
    data.racer.name = String::from("Lemon");
    let ctx = RaceContext::new(data, 0);
    assert_eq!((ctx.x(), ctx.y(), ctx.z()), (1, -2, 3));
    assert_eq!(ctx.racer_name(), "Lemon");
}

#[test]
fn state_follows_the_index() {
    let mut ctx = session(3);
    let expected = [
        RaceState::WaitingToStart,
        RaceState::Racing,
        RaceState::Racing,
        RaceState::Finished,
        RaceState::Finished,
    ];
    for (index, state) in expected.iter().enumerate() {
        ctx.current_checkpoint = index;
        ctx.update_state();
        assert_eq!(ctx.race_state, *state);
    }
}

#[test]
fn state_on_a_course_without_checkpoints() {
    let mut ctx = session(0);
    ctx.update_state();
    assert_eq!(ctx.race_state, RaceState::WaitingToStart);
    ctx.current_checkpoint = 1;
    ctx.update_state();
    assert_eq!(ctx.race_state, RaceState::Finished);
}

#[test]
fn collect_advances_by_one_and_starts_the_clock() {
    let mut ctx = session(3);
    ctx.collect_checkpoint(5_000);
    assert_eq!(ctx.current_checkpoint, 1);
    assert_eq!(ctx.start_time, 5_000);
    assert_eq!(ctx.checkpoint_times, vec![0]);
    ctx.update_state();
    ctx.collect_checkpoint(5_250);
    assert_eq!(ctx.current_checkpoint, 2);
    assert_eq!(ctx.start_time, 5_000);
    assert_eq!(ctx.checkpoint_times, vec![0, 250]);
}

#[test]
fn collect_on_a_finished_lap_does_nothing() {
    let mut ctx = session(1);
    ctx.collect_checkpoint(10);
    ctx.update_state();
    assert_eq!(ctx.race_state, RaceState::Finished);
    ctx.collect_checkpoint(20);
    assert_eq!(ctx.current_checkpoint, 1);
    assert_eq!(ctx.checkpoint_times, vec![0]);
    assert_eq!(ctx.start_time, 10);
}

#[test]
fn collect_before_the_start_time_records_zero() {
    let mut ctx = session(3);
    ctx.race_state = RaceState::Racing;
    ctx.current_checkpoint = 1;
    ctx.start_time = 900;
    ctx.collect_checkpoint(800);
    assert_eq!(ctx.checkpoint_times, vec![0]);
}

#[test]
fn restart_then_update_state_waits() {
    let states = [RaceState::WaitingToStart, RaceState::Racing, RaceState::Finished];
    for state in states.iter() {
        for index in 0..5 {
            let mut ctx = session(3);
            ctx.race_state = *state;
            ctx.current_checkpoint = index;
            ctx.checkpoint_times = vec![0; index];
            ctx.restart_course();
            ctx.update_state();
            assert_eq!(ctx.race_state, RaceState::WaitingToStart);
            assert_eq!(ctx.current_checkpoint, 0);
            assert!(ctx.checkpoint_times.is_empty());
        }
    }
}

#[test]
fn restart_leaves_the_state_to_update_state() {
    let mut ctx = session(3);
    ctx.race_state = RaceState::Finished;
    ctx.current_checkpoint = 3;
    ctx.restart_course();
    assert_eq!(ctx.race_state, RaceState::Finished);
    assert_eq!(ctx.current_checkpoint, 0);
}

#[test]
fn start_timer_sets_the_start() {
    let mut ctx = session(3);
    ctx.start_timer(123);
    assert_eq!(ctx.start_time, 123);
}

#[test]
fn inside_is_strict() {
    let mut ctx = session(2);
    ctx.update(at(9, 0, 0), 0);
    assert!(ctx.is_in_current_checkpoint());
    ctx.update(at(10, 0, 0), 0);
    assert!(!ctx.is_in_current_checkpoint());
    ctx.update(at(6, 6, 5), 0);
    assert!(ctx.is_in_current_checkpoint());
    ctx.update(at(6, 6, 6), 0);
    assert!(!ctx.is_in_current_checkpoint());
    ctx.update(at(-91, 0, 0), 0);
    assert!(ctx.is_in_reset_checkpoint());
    ctx.update(at(-90, 0, 0), 0);
    assert!(!ctx.is_in_reset_checkpoint());
}

#[test]
fn never_inside_once_every_checkpoint_is_reached() {
    let mut ctx = session(2);
    ctx.current_checkpoint = 2;
    ctx.update(at(100, 0, 0), 0);
    assert!(!ctx.is_in_current_checkpoint());
}

#[test]
fn never_inside_a_checkpoint_without_extent() {
    let mut ctx = RaceContext::new(GW2Data::new(), 0);
    let mut course = Course::new();
    course.push_cp(0, 0, 0, 0);
    course.add_reset(0, 0, 0, -5);
    ctx.load_course(course);
    assert!(!ctx.is_in_current_checkpoint());
    assert!(!ctx.is_in_reset_checkpoint());
}

#[test]
fn no_reset_zone_without_a_reset_checkpoint() {
    let mut ctx = RaceContext::new(GW2Data::new(), 0);
    let mut course = Course::new();
    course.push_cp(0, 0, 0, 10);
    ctx.load_course(course);
    assert_eq!(ctx.reset_cp_distance(), None);
    assert!(!ctx.is_in_reset_checkpoint());
}

#[test]
fn distances_to_checkpoints() {
    let mut ctx = session(2);
    ctx.update(at(3, 4, 12), 0);
    assert_eq!(ctx.current_cp_distance(), 13);
    assert_eq!(ctx.reset_cp_distance(), Some(103));
    assert_eq!(
        ctx.peek_current_checkpoint(),
        Checkpoint { step: 0, stepname: Stepname::Checkpoint, x: 0, y: 0, z: 0, radius: 10 }
    );
    ctx.current_checkpoint = 1;
    assert_eq!(ctx.current_cp_distance(), 97);
    assert_eq!(ctx.peek_current_checkpoint().x, 100);
}

#[test]
fn a_lap_from_start_to_finish() {
    let mut ctx = session(3);
    assert_eq!(step(&mut ctx, 50, 1_000), TickEvents { restarted: false, finished: false });
    assert_eq!(ctx.race_state, RaceState::WaitingToStart);
    assert_eq!(step(&mut ctx, 5, 2_000), TickEvents { restarted: false, finished: false });
    assert_eq!(ctx.race_state, RaceState::Racing);
    assert_eq!(ctx.current_checkpoint, 1);
    assert_eq!(step(&mut ctx, 6, 2_010), TickEvents { restarted: false, finished: false });
    assert_eq!(ctx.current_checkpoint, 1);
    assert_eq!(step(&mut ctx, 95, 2_500), TickEvents { restarted: false, finished: false });
    assert_eq!(ctx.current_checkpoint, 2);
    assert_eq!(step(&mut ctx, 205, 3_250), TickEvents { restarted: false, finished: true });
    assert_eq!(ctx.race_state, RaceState::Finished);
    assert_eq!(ctx.current_checkpoint, 3);
    assert_eq!(ctx.checkpoint_times, vec![0, 500, 1_250]);
    assert_eq!(step(&mut ctx, 205, 3_260), TickEvents { restarted: false, finished: false });
    assert_eq!(ctx.race_state, RaceState::Finished);
    assert_eq!(ctx.checkpoint_times, vec![0, 500, 1_250]);
}

#[test]
fn a_course_of_one_checkpoint_finishes_at_once() {
    let mut ctx = session(1);
    assert_eq!(step(&mut ctx, 0, 10), TickEvents { restarted: false, finished: true });
    assert_eq!(ctx.race_state, RaceState::Finished);
    assert_eq!(ctx.checkpoint_times, vec![0]);
}

#[test]
fn reset_zone_restarts_a_finished_lap() {
    let mut ctx = session(1);
    step(&mut ctx, 0, 10);
    assert_eq!(ctx.race_state, RaceState::Finished);
    assert_eq!(step(&mut ctx, -100, 20), TickEvents { restarted: true, finished: false });
    assert_eq!(ctx.current_checkpoint, 0);
    assert!(ctx.checkpoint_times.is_empty());
    assert_eq!(ctx.race_state, RaceState::WaitingToStart);
}

#[test]
fn reset_zone_restarts_a_running_lap() {
    let mut ctx = session(3);
    step(&mut ctx, 0, 10);
    step(&mut ctx, 100, 20);
    assert_eq!(ctx.current_checkpoint, 2);
    assert_eq!(step(&mut ctx, -95, 30), TickEvents { restarted: true, finished: false });
    assert_eq!(ctx.current_checkpoint, 0);
    assert!(ctx.checkpoint_times.is_empty());
    assert_eq!(ctx.race_state, RaceState::WaitingToStart);
}

#[test]
fn reset_is_looked_at_before_the_checkpoint() {
    let mut ctx = RaceContext::new(GW2Data::new(), 0);
    let mut course = Course::new();
    course.push_cp(0, 0, 0, 10);
    course.push_cp(100, 0, 0, 10);
    course.add_reset(0, 0, 0, 10);
    ctx.load_course(course);
    ctx.current_checkpoint = 1;
    ctx.checkpoint_times = vec![0];
    ctx.race_state = RaceState::Racing;
    ctx.start_time = 5;
    let events = step(&mut ctx, 1, 50);
    assert_eq!(events, TickEvents { restarted: true, finished: false });
    assert_eq!(ctx.current_checkpoint, 1);
    assert_eq!(ctx.checkpoint_times, vec![45]);
    assert_eq!(ctx.race_state, RaceState::Racing);
}

#[test]
fn tick_without_a_course_does_nothing() {
    let mut ctx = RaceContext::new(GW2Data::new(), 0);
    assert_eq!(ctx.tick(10), TickEvents { restarted: false, finished: false });
    assert_eq!(ctx.current_checkpoint, 0);
    assert_eq!(ctx.race_state, RaceState::WaitingToStart);
}

#[test]
fn no_speed_before_two_samples() {
    let mut ctx = RaceContext::new(GW2Data::new(), 0);
    assert_eq!(ctx.filtered_speed(), 0);
    assert_eq!(ctx.dist_per_poll(), 0);
    assert_eq!(ctx.time_per_poll(), 0);
    ctx.update(at(40_000, 0, 30_000), 10);
    assert_eq!(ctx.filtered_speed(), 0);
    assert_eq!(ctx.dist_per_poll(), 0);
    assert_eq!(ctx.time_per_poll(), 0);
    assert_eq!(ctx.instants, (None, Some(TimePosition { time: 10, position: Position { x: 40_000, y: 0, z: 30_000 } })));
    ctx.update(at(40_300, 900, 30_400), 25);
    assert_eq!(ctx.dist_per_poll(), 500);
    assert_eq!(ctx.time_per_poll(), 15);
    assert_eq!(ctx.filtered_distance(), 500);
    assert_eq!(ctx.filtered_speed(), 27);
}

#[test]
fn speed_uses_the_greatest_of_the_last_five_samples() {
    let mut ctx = RaceContext::new(GW2Data::new(), 0);
    ctx.speed_scale = SpeedScale { numerator: 3, denominator: 2 };
    let xs = [0, 100, 110, 120, 130, 140, 150, 150];
    let expected_windows: [Vec<u64>; 8] = [
        vec![0, 0, 0],
        vec![0, 0, 0, 100],
        vec![0, 0, 0, 100, 10],
        vec![0, 0, 100, 10, 10],
        vec![0, 100, 10, 10, 10],
        vec![100, 10, 10, 10, 10],
        vec![10, 10, 10, 10, 10],
        vec![10, 10, 10, 10, 0],
    ];
    let expected_speeds = [0, 150, 150, 150, 150, 150, 15, 15];
    for i in 0..xs.len() {
        ctx.update(at(xs[i], 0, 0), 10 * i as u64);
        assert_eq!(ctx.distance_queue, VecDeque::from(expected_windows[i].clone()));
        assert_eq!(ctx.filtered_speed(), expected_speeds[i]);
    }
}

#[test]
fn speed_is_rounded_down_and_capped() {
    let mut ctx = RaceContext::new(GW2Data::new(), 0);
    ctx.distance_queue = VecDeque::from(vec![7]);
    ctx.speed_scale = SpeedScale { numerator: 1, denominator: 2 };
    assert_eq!(ctx.filtered_speed(), 3);
    ctx.speed_scale = SpeedScale { numerator: u64::MAX, denominator: 1 };
    assert_eq!(ctx.filtered_speed(), i32::MAX);
    ctx.speed_scale = SpeedScale { numerator: 5, denominator: 0 };
    assert_eq!(ctx.filtered_speed(), 0);
    ctx.distance_queue = VecDeque::new();
    ctx.speed_scale = SpeedScale { numerator: 5, denominator: 1 };
    assert_eq!(ctx.filtered_speed(), 0);
}

#[test]
fn speed_grows_with_the_distance() {
    let mut ctx = RaceContext::new(GW2Data::new(), 0);
    let mut last = 0;
    for distance in [0u64, 1, 18, 19, 500, 10_000, 1 << 40, u64::MAX] {
        ctx.distance_queue = VecDeque::from(vec![distance]);
        let speed = ctx.filtered_speed();
        assert!(speed >= last);
        last = speed;
    }
}

#[test]
fn default_scale_matches_the_named_numbers() {
    assert_eq!(
        SpeedScale::default(),
        SpeedScale { numerator: DEFAULT_SPEED_NUMERATOR, denominator: DEFAULT_SPEED_DENOMINATOR }
    );
}

#[test]
fn update_keeps_the_lap() {
    let mut ctx = session(3);
    ctx.collect_checkpoint(5);
    ctx.update_state();
    ctx.update(at(1, 2, 3), 6);
    assert_eq!(ctx.current_checkpoint, 1);
    assert_eq!(ctx.checkpoint_times, vec![0]);
    assert_eq!(ctx.race_state, RaceState::Racing);
    assert_eq!(ctx.start_time, 5);
    assert_eq!((ctx.x(), ctx.y(), ctx.z()), (1, 2, 3));
}

#[test]
fn time_position_new_is_at_the_origin() {
    assert_eq!(TimePosition::new(9), TimePosition { time: 9, position: Position { x: 0, y: 0, z: 0 } });
}

#[test]
fn load_course_starts_the_lap_anew() {
    let mut ctx = session(3);
    step(&mut ctx, 0, 10);
    step(&mut ctx, 100, 20);
    assert_eq!(ctx.current_checkpoint, 2);
    ctx.load_course(line_course(2));
    assert_eq!(ctx.current_checkpoint, 0);
    assert!(ctx.checkpoint_times.is_empty());
    assert_eq!(ctx.race_state, RaceState::WaitingToStart);
    assert_eq!(ctx.selected_course.as_ref().map(|c| c.checkpoints.len()), Some(2));
    assert_eq!(ctx.x(), 100);
}

#[test]
fn a_finished_lap_has_one_arrival_per_checkpoint() {
    for checkpoints in 1..6usize {
        let mut ctx = session(checkpoints);
        let mut finished = 0;
        for i in 0..checkpoints {
            let events = step(&mut ctx, 100 * i as i32, 1_000 + 50 * i as u64);
            if events.finished {
                finished += 1;
                assert_eq!(ctx.checkpoint_times.len(), checkpoints);
                assert_eq!(*ctx.checkpoint_times.last().unwrap(), 50 * (checkpoints as u64 - 1));
            }
        }
        assert_eq!(finished, 1);
        assert_eq!(ctx.race_state, RaceState::Finished);
    }
}

#[test]
fn state_for_an_index() {
    assert_eq!(RaceState::for_index(0, 0), RaceState::WaitingToStart);
    assert_eq!(RaceState::for_index(0, 4), RaceState::WaitingToStart);
    assert_eq!(RaceState::for_index(1, 4), RaceState::Racing);
    assert_eq!(RaceState::for_index(3, 4), RaceState::Racing);
    assert_eq!(RaceState::for_index(4, 4), RaceState::Finished);
    assert_eq!(RaceState::for_index(9, 4), RaceState::Finished);
    assert_eq!(RaceState::for_index(1, 1), RaceState::Finished);
    assert_eq!(RaceState::for_index(1, 0), RaceState::Finished);
}
