use racing_sim::bounding_box::{BoundingBox, Rect};
use racing_sim::car::{Car, CarStatus, CarType, Movement};
use racing_sim::controller::{
    ArrowKey, AutoDrive, AutoDriveController, CarController, DecisionError, KeyController, KeyboardState,
    SimpleController,
};
use racing_sim::geometry::FVec;
use racing_sim::score::Score;
use racing_sim::stage::{GameStage, GameStatus, START_X, START_Y};
use racing_sim::track::{Track, TrackSegment, TrackSegmentDirection, TrackSegmentType, TRACK_SEG_HEIGHT, TRACK_SEG_WIDTH};

const PX: i64 = 1000;
const TICK: i64 = 16_667;

fn key_car(x: i64, y: i64) -> Car {
    Car::new(7, x, y, CarType::No5, CarController::Key(KeyController::new(7)))
}

#[test]
fn track_tokens_place_each_segment_after_the_last() {
    let dirs = vec![
        TrackSegmentDirection::LeftToRight,
        TrackSegmentDirection::LeftToBottom,
        TrackSegmentDirection::TopToLeft,
        TrackSegmentDirection::RightToTop,
    ];
    let track = Track::new(0, 0, dirs);
    let places: Vec<(i64, i64)> = track.segments.iter().map(|s| (s.body.rect.x, s.body.rect.y)).collect();
    assert_eq!(places, vec![(0, 0), (TRACK_SEG_WIDTH, 0), (TRACK_SEG_WIDTH, TRACK_SEG_HEIGHT), (0, TRACK_SEG_HEIGHT)]);
    assert_eq!(track.segments[0].track_type, TrackSegmentType::LeftRight);
    assert_eq!(track.segments[1].track_type, TrackSegmentType::UpperRight);
    assert_eq!(track.segments[0].boundaries.len(), 2);
    assert_eq!(track.segments[1].boundaries.len(), 8);
    assert_ne!(track.segments[0].id, track.segments[1].id);
}

#[test]
fn the_stage_track_closes_on_itself() {
    let track = GameStage::gen_track();
    assert_eq!(track.segments.len(), 32);
    assert_eq!((track.segments[0].body.rect.x, track.segments[0].body.rect.y), (0, 0));
    let last = &track.segments[31];
    assert_eq!(last.direction, TrackSegmentDirection::BottomToTop);
    // one tile up from the last segment is the start again
    assert_eq!((last.body.rect.x, last.body.rect.y - TRACK_SEG_HEIGHT), (0, 0));
}

#[test]
fn a_corner_wall_is_a_connected_quarter_circle() {
    let seg = TrackSegment::new(0, 0, TrackSegmentType::LowerRight, TrackSegmentDirection::TopToLeft);
    let walls = &seg.boundaries;
    assert_eq!(walls.len(), 8);
    assert_eq!(walls[0].start, FVec::new(TRACK_SEG_WIDTH, 0));
    assert_eq!(walls[7].end, FVec::new(0, TRACK_SEG_WIDTH));
    for i in 0..7 {
        assert_eq!(walls[i].end, walls[i + 1].start);
    }
    let debug = seg.set_debug(true);
    assert!(debug.debug);
}

#[test]
fn straight_rails_and_collision() {
    let seg = TrackSegment::new(0, 0, TrackSegmentType::LeftRight, TrackSegmentDirection::LeftToRight);
    // a car in the middle of the lane touches nothing
    let inside = BoundingBox::new(&Rect { x: 40 * PX, y: 50 * PX, w: 63 * PX, h: 38 * PX });
    assert_eq!(seg.collide(&inside), None);
    // a car across the top rail touches it
    let across = BoundingBox::new(&Rect { x: 40 * PX, y: -10 * PX, w: 63 * PX, h: 38 * PX });
    assert_eq!(seg.collide(&across), Some(FVec::new(103 * PX, 0)));
    let track = Track { segments: vec![seg] };
    assert_eq!(track.on_collide(&across), Some((FVec::new(103 * PX, 0), TrackSegmentType::LeftRight)));
    assert_eq!(track.on_collide(&inside), None);
    // far away nothing is tested
    let far = BoundingBox::new(&Rect { x: 900 * PX, y: -10 * PX, w: 63 * PX, h: 38 * PX });
    assert_eq!(track.segments[0].collide(&far), None);
}

#[test]
fn which_segment_holds_the_car() {
    let track = Track::new(0, 0, vec![TrackSegmentDirection::LeftToRight, TrackSegmentDirection::LeftToRight]);
    let body = BoundingBox::new(&Rect { x: 200 * PX, y: 50 * PX, w: 20 * PX, h: 20 * PX });
    let seg = track.on_which_track_seg(&body).unwrap();
    assert_eq!(seg.id, track.segments[1].id);
    let off = BoundingBox::new(&Rect { x: 500 * PX, y: 50 * PX, w: 20 * PX, h: 20 * PX });
    assert!(track.on_which_track_seg(&off).is_none());
}

#[test]
fn forward_and_heading_tables() {
    assert_eq!(TrackSegmentDirection::LeftToRight.forward(), FVec::new(1, 0));
    assert_eq!(TrackSegmentDirection::BottomToRight.forward(), FVec::new(1, -1));
    assert_eq!(TrackSegmentDirection::TopToBottom.heading(), 1_570_796);
    assert_eq!(TrackSegmentDirection::LeftToRight.heading(), 0);
}

#[test]
fn score_rises_forward_and_falls_backward() {
    let track = Track::new(0, 0, vec![TrackSegmentDirection::LeftToRight]);
    let mut score = Score::new();
    let mut body = BoundingBox::new(&Rect { x: 40 * PX, y: 50 * PX, w: 20 * PX, h: 20 * PX });
    score.update(&body, &track, TICK);
    assert_eq!(score.score, 0);
    body.move_at(10 * PX);
    score.update(&body, &track, TICK);
    assert_eq!(score.score, 10 * PX);
    assert_eq!(score.top_score, 10 * PX);
    assert_eq!(score.stale_time, 0);
    body.move_at(-4 * PX);
    score.update(&body, &track, TICK);
    assert_eq!(score.score, 6 * PX);
    assert_eq!(score.top_score, 10 * PX);
    assert_eq!(score.stale_time, TICK);
    assert!(!score.is_stale_for(TICK));
    assert!(score.is_stale_for(TICK - 1));
    score.reset();
    assert_eq!((score.score, score.top_score, score.stale_time), (0, 0, 0));
}

#[test]
fn a_car_at_rest_without_throttle_stays_at_rest() {
    let track = GameStage::gen_track();
    let mut car = key_car(START_X, START_Y);
    car.update(&track, &KeyboardState::new(), &None, TICK);
    assert_eq!(car.velocity, 0);
    assert_eq!(car.status, CarStatus::Live);
    assert_eq!((car.body.rect.x, car.body.rect.y), (START_X, START_Y));
}

#[test]
fn throttle_accelerates_with_friction() {
    let track = GameStage::gen_track();
    let mut car = key_car(START_X, START_Y);
    let mut keys = KeyboardState::new();
    keys.press(ArrowKey::ArrowUp);
    car.update(&track, &keys, &None, TICK);
    // from rest one push gives the full acceleration
    assert_eq!(car.velocity, 10_000);
    // 10_000 * 16_667 / 1_000_000 = 166 units moved
    assert_eq!(car.body.rect.x, START_X + 166);
    car.update(&track, &keys, &None, TICK);
    // then friction is a fiftieth of the speed
    assert_eq!(car.velocity, 10_000 + 10_000 - 200);
    keys.set_released(ArrowKey::ArrowUp);
    keys.press(ArrowKey::ArrowDown);
    assert!(keys.is_pressed(ArrowKey::ArrowDown));
    car.update(&track, &keys, &None, TICK);
    assert_eq!(car.velocity, 19_800 - 20_000 - 396);
}

#[test]
fn steering_turns_a_moving_car() {
    let track = GameStage::gen_track();
    let mut car = key_car(START_X, START_Y);
    car.velocity = 100_000;
    let mut keys = KeyboardState::new();
    keys.press(ArrowKey::ArrowRight);
    car.update(&track, &keys, &None, TICK);
    assert_eq!(car.turning_angle, 3_000_000);
    // the turn takes effect on the throttle step that follows the steering intent
    assert_eq!(car.body.rotate, 50_001);
}

#[test]
fn sensor_reads_the_rails() {
    let track = GameStage::gen_track();
    let mut car = key_car(START_X, START_Y);
    car.reset_sensor();
    car.detect(&track);
    assert_eq!(car.sensor.right_dis, 70 * PX);
    assert_eq!(car.sensor.left_dis, 80 * PX);
    assert_eq!(car.sensor.forward_dis, 200 * PX);
    assert_eq!(car.sensor.back_dis, 200 * PX);
    assert_eq!(car.sensor.track_direction, 0);
}

#[test]
fn a_car_that_hits_a_wall_dies() {
    let track = GameStage::gen_track();
    let mut car = key_car(START_X, 140 * PX);
    car.update(&track, &KeyboardState::new(), &None, TICK);
    assert_eq!(car.status, CarStatus::Dead);
    let before = (car.body.rect.x, car.velocity);
    car.update(&track, &KeyboardState::new(), &None, TICK);
    assert_eq!((car.body.rect.x, car.velocity), before);
}

#[test]
fn a_car_without_progress_for_two_seconds_dies() {
    let track = GameStage::gen_track();
    let mut car = key_car(START_X, START_Y);
    for _ in 0..4 {
        car.update(&track, &KeyboardState::new(), &None, 500_000);
        assert_eq!(car.status, CarStatus::Live);
    }
    assert_eq!(car.score.stale_time, 2_000_000);
    car.update(&track, &KeyboardState::new(), &None, 500_000);
    assert_eq!(car.status, CarStatus::Dead);
}

#[test]
fn car_reset_brings_it_back() {
    let mut car = key_car(START_X, START_Y);
    car.status = CarStatus::Dead;
    car.velocity = 5_000;
    car.score.score = 12;
    car.reset(&FVec::new(10 * PX, 20 * PX), 0);
    assert_eq!(car.status, CarStatus::Live);
    assert_eq!((car.velocity, car.score.score), (0, 0));
    assert_eq!((car.body.rect.x, car.body.rect.y), (10 * PX, 20 * PX));
}

#[test]
fn controllers_give_their_intents() {
    let keys = KeyboardState::new();
    let simple = CarController::Simple(SimpleController {});
    assert_eq!(simple.next_movements(&keys, &None), vec![Movement::Forward]);
    let key = CarController::Key(KeyController::new(3));
    assert_eq!(key.get_id(), 3);
    assert_eq!(key.next_movements(&keys, &None), vec![Movement::NotTurning, Movement::NotAccelarate]);
    let mut held = KeyboardState::new();
    held.press(ArrowKey::ArrowLeft);
    held.press(ArrowKey::ArrowRight);
    held.press(ArrowKey::ArrowDown);
    assert_eq!(key.next_movements(&held, &None), vec![Movement::Left, Movement::Backward]);
}

#[test]
fn decisions_are_thresholded_per_channel() {
    let mut auto = AutoDrive::new(300_000);
    let c = AutoDriveController::new(9, &mut auto);
    let controller = CarController::AutoDrive(c);
    assert_eq!(controller.get_id(), 9);
    let auto = Some(auto);
    // nothing before the first decision
    assert_eq!(controller.next_movements(&KeyboardState::new(), &auto), vec![]);
    let mut auto = auto.unwrap();
    let r = auto.apply_outputs(&vec![9], &vec![vec![600_000, 400_000, 500_000, 900_000]]);
    assert_eq!(r, Ok(()));
    let auto = Some(auto);
    assert_eq!(controller.next_movements(&KeyboardState::new(), &auto), vec![Movement::Forward, Movement::Left]);
}

#[test]
fn malformed_decision_batches_change_nothing() {
    let mut auto = AutoDrive::new(300_000);
    auto.register(1);
    auto.register(2);
    assert_eq!(auto.apply_outputs(&vec![1, 2], &vec![vec![1, 1, 1, 1]]), Err(DecisionError::RowCount));
    assert_eq!(auto.apply_outputs(&vec![1, 2], &vec![vec![1, 1, 1, 1], vec![1, 1]]), Err(DecisionError::RowLength));
    assert_eq!(auto.controllers.get(&1), Some(&None));
    assert_eq!(auto.apply_outputs(&vec![1, 2], &vec![vec![1, 2, 3, 4], vec![5, 6, 7, 8]]), Ok(()));
    assert_eq!(auto.controllers.get(&2), Some(&Some([5, 6, 7, 8])));
    // a later batch fully replaces an earlier one
    assert_eq!(auto.apply_outputs(&vec![2], &vec![vec![0, 0, 0, 0]]), Ok(()));
    assert_eq!(auto.controllers.get(&2), Some(&Some([0, 0, 0, 0])));
    assert_eq!(auto.controllers.get(&1), Some(&Some([1, 2, 3, 4])));
}

#[test]
fn network_request_counts_the_population() {
    let (auto, cars) = GameStage::auto_drive_cars();
    let auto = auto.unwrap();
    assert_eq!(cars.len(), 50);
    let req = auto.new_network();
    assert_eq!((req.num_of_cars, req.num_of_args, req.num_of_outputs), (50, 7, 4));
    let (none, player) = GameStage::player_drive_car();
    assert!(none.is_none());
    assert_eq!(player.len(), 1);
}

#[test]
fn evaluation_waits_for_the_interval_and_skips_dead_cars() {
    let mut auto = AutoDrive::new(300_000);
    let c1 = AutoDriveController::new(1, &mut auto);
    let c2 = AutoDriveController::new(2, &mut auto);
    let mut a = Car::new(1, START_X, START_Y, CarType::No8, CarController::AutoDrive(c1));
    let mut b = Car::new(2, START_X, START_Y, CarType::No8, CarController::AutoDrive(c2));
    a.velocity = 100_000;
    a.sensor.right_dis = 70_000;
    b.status = CarStatus::Dead;
    let cars = vec![a, b];
    auto.tick(200_000);
    assert!(auto.evaluate(&cars).is_none());
    auto.tick(200_000);
    let req = auto.evaluate(&cars).unwrap();
    assert_eq!(req.ids, vec![1]);
    assert_eq!(req.inputs, vec![vec![1_000_000, 350_000, 1_000_000, 1_000_000, 500_000, 0, 0]]);
    assert_eq!(auto.timer.ellapsed, 100_000);
}

#[test]
fn fitness_is_each_score_in_order() {
    let (auto, mut cars) = GameStage::auto_drive_cars();
    cars[0].score.score = 7;
    cars[1].score.score = -3;
    let req = auto.unwrap().next_gen(&cars);
    assert_eq!(req.fitnesses.len(), 50);
    assert_eq!((req.fitnesses[0], req.fitnesses[1], req.fitnesses[2]), (7, -3, 0));
}

#[test]
fn a_round_ends_when_every_car_is_dead() {
    let mut auto = AutoDrive::new(300_000);
    let mut cars = Vec::new();
    for (id, score) in [(11u128, 10_000i64), (12, 25_000), (13, 5_000)] {
        let c = AutoDriveController::new(id, &mut auto);
        let mut car = Car::new(id, 1_000 * PX, 900 * PX, CarType::No8, CarController::AutoDrive(c));
        car.score.score = score;
        car.velocity = 3_000;
        car.status = CarStatus::Dead;
        cars.push(car);
    }
    let mut stage = GameStage {
        round: 1,
        track: GameStage::gen_track(),
        cars,
        status: GameStatus::Running,
        auto_drive: Some(auto),
        keyboard_state: KeyboardState::new(),
    };
    let events = stage.update(TICK);
    assert_eq!(events.fitness.unwrap().fitnesses, vec![10_000, 25_000, 5_000]);
    assert_eq!(stage.round, 2);
    for car in stage.cars.iter() {
        assert_eq!(car.status, CarStatus::Live);
        assert_eq!(car.velocity, 0);
        assert_eq!((car.body.rect.x, car.body.rect.y), (START_X, START_Y));
    }
    assert_eq!(stage.cars.iter().map(|c| c.id).collect::<Vec<_>>(), vec![11, 12, 13]);
    // the next tick finds live cars and starts no new round
    let events = stage.update(TICK);
    assert!(events.fitness.is_none());
    assert_eq!(stage.round, 2);
}

#[test]
fn a_new_stage_starts_in_round_one() {
    let stage = GameStage::new(KeyboardState::new());
    assert_eq!(stage.round, 1);
    assert_eq!(stage.cars.len(), 50);
    assert_eq!(stage.status, GameStatus::Running);
}
