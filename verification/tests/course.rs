use speedylemon::checkpoint::Checkpoint;
use speedylemon::checkpoint::Stepname;
use speedylemon::course::Course;
use speedylemon::util::Position;

fn record(step: i16, stepname: Stepname, x: i32) -> Checkpoint {
    Checkpoint { step, stepname, x, y: 0, z: 0, radius: 15 }
}

#[test]
fn new_course_is_empty() {
    let course = Course::new();
    assert_eq!(course.name, "");
    assert!(course.checkpoints.is_empty());
    assert!(course.reset.is_none());
}

#[test]
fn push_cp_numbers_by_place() {
    let mut course = Course::new();
    course.push_cp(1, 2, 3, 15);
    course.push_cp(4, 5, 6, 20);
    assert_eq!(
        course.checkpoints,
        vec![
            Checkpoint { step: 0, stepname: Stepname::Checkpoint, x: 1, y: 2, z: 3, radius: 15 },
            Checkpoint { step: 1, stepname: Stepname::Checkpoint, x: 4, y: 5, z: 6, radius: 20 },
        ]
    );
    assert!(course.reset.is_none());
}

#[test]
fn add_reset_replaces_the_reset() {
    let mut course = Course::new();
    course.add_reset(1, 2, 3, 15);
    course.add_reset(7, 8, 9, 30);
    assert_eq!(course.reset, Some(Checkpoint { step: -1, stepname: Stepname::Reset, x: 7, y: 8, z: 9, radius: 30 }));
    assert!(course.checkpoints.is_empty());
}

#[test]
fn from_records_sorts_by_step_and_takes_the_reset_out() {
    let records = vec![
        record(2, Stepname::End, 30),
        record(-1, Stepname::Reset, 99),
        record(0, Stepname::Start, 10),
        record(1, Stepname::Checkpoint, 20),
    ];
    let course = Course::from_records(&String::from("TYRIA"), records);
    assert_eq!(course.name, "TYRIA");
    assert_eq!(course.reset, Some(record(-1, Stepname::Reset, 99)));
    assert_eq!(
        course.checkpoints,
        vec![record(0, Stepname::Start, 10), record(1, Stepname::Checkpoint, 20), record(2, Stepname::End, 30)]
    );
}

#[test]
fn from_records_keeps_file_order_within_a_step() {
    let records = vec![
        record(1, Stepname::Checkpoint, 1),
        record(0, Stepname::Start, 2),
        record(1, Stepname::Checkpoint, 3),
        record(0, Stepname::Checkpoint, 4),
        record(1, Stepname::End, 5),
    ];
    let course = Course::from_records(&String::new(), records);
    let xs: Vec<i32> = course.checkpoints.iter().map(|c| c.x).collect();
    assert_eq!(xs, vec![2, 4, 1, 3, 5]);
    assert!(course.reset.is_none());
}

#[test]
fn from_records_takes_the_last_reset() {
    let records = vec![
        record(-1, Stepname::Reset, 1),
        record(0, Stepname::Start, 2),
        record(5, Stepname::Reset, 3),
    ];
    let course = Course::from_records(&String::from("x"), records);
    assert_eq!(course.reset, Some(record(5, Stepname::Reset, 3)));
    assert_eq!(course.checkpoints, vec![record(0, Stepname::Start, 2)]);
}

#[test]
fn from_records_of_nothing() {
    let course = Course::from_records(&String::from("empty"), Vec::new());
    assert!(course.checkpoints.is_empty());
    assert!(course.reset.is_none());
}

#[test]
fn from_records_reverses_a_descending_file() {
    let records: Vec<Checkpoint> = (0..50).rev().map(|i| record(i, Stepname::Checkpoint, i as i32)).collect();
    let course = Course::from_records(&String::new(), records);
    let steps: Vec<i16> = course.checkpoints.iter().map(|c| c.step).collect();
    assert_eq!(steps, (0..50).collect::<Vec<i16>>());
}

#[test]
fn checkpoint_defaults() {
    let expected = Checkpoint { step: 0, stepname: Stepname::Checkpoint, x: 0, y: 0, z: 0, radius: 15 };
    assert_eq!(Checkpoint::default(), expected);
    assert_eq!(Checkpoint::_new(), expected);
}

#[test]
fn checkpoint_point_is_its_centre() {
    let cp = Checkpoint { step: 3, stepname: Stepname::End, x: -4, y: 5, z: 6, radius: 1 };
    assert_eq!(cp.point(), Position { x: -4, y: 5, z: 6 });
}
