//! The stage: the track, the population of cars, and the rounds of training.
use vstd::prelude::*;
use crate::car::{Car, CarStatus, CarType, MAX_DELTA, ticked};
use crate::controller::{
    AutoDrive, AutoDriveController, CarController, EvaluteRequest, KeyController, KeyboardState,
    SetFitnessesRequest,
};
use crate::geometry::{FVec, clamp_i64, sat_add};
use crate::ids::new_id;
use crate::track::{
    Track, TrackSegmentDirection, entry_side, exit_side, is_closed_loop, layout, lemma_closed_loop_returns_to_start,
    net_steps, opposite,
};

verus! {

/// How many cars a population has.
pub const NUM_CARS: usize = 50;

/// Where cars start each round.
pub const START_X: i64 = 400_000;

/// Where cars start each round.
pub const START_Y: i64 = 80_000;

/// How often the coordinator asks for decisions, in microseconds.
pub const UPDATE_INTERVAL: i64 = 300_000;

#[derive(Clone, Copy, Debug, PartialEq, Eq, Structural)]
pub enum GameStatus {
    Pause,
    Running,
    Over,
}

/// What a tick asks of the optimizer: the fitness of a finished round,
/// decisions for the live cars, or both.
pub struct StageEvents {
    pub fitness: Option<SetFitnessesRequest>,
    pub evaluate: Option<EvaluteRequest>,
}

/// Every car is dead.
pub open spec fn all_dead(cars: Seq<Car>) -> bool {
    forall|i: int| 0 <= i < cars.len() ==> (#[trigger] cars[i]).status == CarStatus::Dead
}

/// `after` is `before` after one tick: dead cars stay as they are, live
/// ones tick.
pub open spec fn car_stepped(
    before: Car,
    after: Car,
    track: Track,
    keys: KeyboardState,
    auto_drive: Option<AutoDrive>,
    dt: int,
) -> bool {
    &&& before.status == CarStatus::Dead ==> after == before
    &&& before.status == CarStatus::Live ==> ticked(before, after, track, keys, auto_drive, dt)
}

/// `after` is `before` put back at the start line, then ticked once.
pub open spec fn restarted_and_stepped(
    before: Car,
    after: Car,
    track: Track,
    keys: KeyboardState,
    auto_drive: Option<AutoDrive>,
    dt: int,
) -> bool {
    exists|m: Car| at_start(m, before) && car_stepped(m, after, track, keys, auto_drive, dt)
}

/// A car brought back to the start line for a new round.
pub open spec fn at_start(car: Car, before: Car) -> bool {
    &&& car.wf()
    &&& car.id == before.id
    &&& car.controller == before.controller
    &&& car.status == CarStatus::Live
    &&& car.velocity == 0
    &&& car.turning_angle == 0
    &&& car.body.rect.x == START_X && car.body.rect.y == START_Y
    &&& car.body.rotate == 0
    &&& car.score.score == 0 && car.score.top_score == 0 && car.score.stale_time == 0
}

/// The tokens of the stage's track.
pub open spec fn stage_tokens() -> Seq<TrackSegmentDirection> {
    seq![
        TrackSegmentDirection::BottomToRight,
        TrackSegmentDirection::LeftToRight,
        TrackSegmentDirection::LeftToRight,
        TrackSegmentDirection::LeftToRight,
        TrackSegmentDirection::LeftToRight,
        TrackSegmentDirection::LeftToBottom,
        TrackSegmentDirection::TopToBottom,
        TrackSegmentDirection::TopToLeft,
        TrackSegmentDirection::RightToLeft,
        TrackSegmentDirection::RightToLeft,
        TrackSegmentDirection::RightToLeft,
        TrackSegmentDirection::RightToBottom,
        TrackSegmentDirection::TopToRight,
        TrackSegmentDirection::LeftToRight,
        TrackSegmentDirection::LeftToRight,
        TrackSegmentDirection::LeftToRight,
        TrackSegmentDirection::LeftToRight,
        TrackSegmentDirection::LeftToRight,
        TrackSegmentDirection::LeftToRight,
        TrackSegmentDirection::LeftToBottom,
        TrackSegmentDirection::TopToLeft,
        TrackSegmentDirection::RightToLeft,
        TrackSegmentDirection::RightToLeft,
        TrackSegmentDirection::RightToLeft,
        TrackSegmentDirection::RightToLeft,
        TrackSegmentDirection::RightToLeft,
        TrackSegmentDirection::RightToLeft,
        TrackSegmentDirection::RightToLeft,
        TrackSegmentDirection::RightToTop,
        TrackSegmentDirection::BottomToTop,
        TrackSegmentDirection::BottomToTop,
        TrackSegmentDirection::BottomToTop,
    ]
}

/// The stage's track is a valid closed loop: placing all its tiles comes
/// back to the start.
pub proof fn lemma_stage_track_is_closed()
    ensures
        is_closed_loop(stage_tokens()),
        layout(0, 0, stage_tokens(), 32) == (0int, 0int),
{
    let d = stage_tokens();
    reveal_with_fuel(net_steps, 33);
    assert(d.len() == 32);
    assert(net_steps(d, 32) == (0int, 0int));
    assert forall|i: int| 0 <= i < d.len() implies #[trigger] entry_side(d[(i + 1) % (d.len() as int)])
        == opposite(exit_side(d[i])) by {
        assert(0 <= i < 32);
    }
    lemma_closed_loop_returns_to_start(0, 0, d);
}

/// The track, the cars, the coordinator and the round being driven.
pub struct GameStage {
    pub round: i64,
    pub track: Track,
    pub cars: Vec<Car>,
    pub status: GameStatus,
    pub auto_drive: Option<AutoDrive>,
    pub keyboard_state: KeyboardState,
}

impl GameStage {
    pub open spec fn wf(&self) -> bool {
        &&& self.track.wf()
        &&& forall|i: int| 0 <= i < self.cars@.len() ==> (#[trigger] self.cars@[i]).wf()
        &&& self.auto_drive matches Some(a) ==> a.wf()
    }

    /// The stage of the first round: the fixed track and a population of
    /// cars driven by the optimizer's decisions.
    pub fn new(keyboard_state: KeyboardState) -> (r: GameStage)
        ensures
            r.wf(),
            r.round == 1,
            r.status == GameStatus::Running,
            r.cars@.len() == NUM_CARS,
            r.auto_drive is Some,
            r.keyboard_state == keyboard_state,
    {
        let track = Self::gen_track();
        let (auto_drive, cars) = Self::auto_drive_cars();
        GameStage { round: 1, status: GameStatus::Running, track, cars, auto_drive, keyboard_state }
    }

    /// A single car at the start line, driven by the arrow keys.
    pub fn player_drive_car() -> (r: (Option<AutoDrive>, Vec<Car>))
        ensures
            r.0 is None,
            r.1@.len() == 1,
            at_start(r.1@[0], r.1@[0]),
            r.1@[0].controller == CarController::Key(KeyController { id: r.1@[0].id }),
    {
        let id = new_id();
        let controller = CarController::Key(KeyController::new(id));
        let mut cars: Vec<Car> = Vec::new();
        cars.push(Car::new(id, START_X, START_Y, CarType::No8, controller));
        (None, cars)
    }

    /// A population of cars at the start line, each registered with a new
    /// coordinator and driven by its decisions.
    pub fn auto_drive_cars() -> (r: (Option<AutoDrive>, Vec<Car>))
        ensures
            r.0 matches Some(a) && a.wf() && a.timer.timeout == UPDATE_INTERVAL,
            r.1@.len() == NUM_CARS,
            forall|i: int|
                0 <= i < NUM_CARS ==> {
                    let car = #[trigger] r.1@[i];
                    &&& at_start(car, car)
                    &&& car.controller == CarController::AutoDrive(AutoDriveController { id: car.id })
                    &&& r.0->Some_0.registered(car.id)
                },
    {
        let mut auto_drive = AutoDrive::new(UPDATE_INTERVAL);
        let mut cars: Vec<Car> = Vec::new();
        let mut k: usize = 0;
        while k < NUM_CARS
            invariant
                0 <= k <= NUM_CARS,
                auto_drive.wf(),
                auto_drive.timer.timeout == UPDATE_INTERVAL,
                cars@.len() == k,
                forall|i: int|
                    0 <= i < k ==> {
                        let car = #[trigger] cars@[i];
                        &&& at_start(car, car)
                        &&& car.controller == CarController::AutoDrive(AutoDriveController { id: car.id })
                        &&& auto_drive.registered(car.id)
                    },
            decreases NUM_CARS - k,
        {
            let id = new_id();
            let controller = AutoDriveController::new(id, &mut auto_drive);
            cars.push(Car::new(id, START_X, START_Y, CarType::No8, CarController::AutoDrive(controller)));
            k += 1;
        }
        (Some(auto_drive), cars)
    }

    /// The track every round is driven on: a closed loop from the origin.
    pub fn gen_track() -> (r: Track)
        ensures
            r.wf(),
            r.segments@.len() == 32,
            forall|k: int|
                0 <= k < 32 ==> {
                    let seg = #[trigger] r.segments@[k];
                    &&& seg.direction == stage_tokens()[k]
                    &&& (seg.body.rect.x as int, seg.body.rect.y as int) == layout(0, 0, stage_tokens(), k)
                },
    {
        let mut d: Vec<TrackSegmentDirection> = Vec::new();
        d.push(TrackSegmentDirection::BottomToRight);
        d.push(TrackSegmentDirection::LeftToRight);
        d.push(TrackSegmentDirection::LeftToRight);
        d.push(TrackSegmentDirection::LeftToRight);
        d.push(TrackSegmentDirection::LeftToRight);
        d.push(TrackSegmentDirection::LeftToBottom);
        d.push(TrackSegmentDirection::TopToBottom);
        d.push(TrackSegmentDirection::TopToLeft);
        d.push(TrackSegmentDirection::RightToLeft);
        d.push(TrackSegmentDirection::RightToLeft);
        d.push(TrackSegmentDirection::RightToLeft);
        d.push(TrackSegmentDirection::RightToBottom);
        d.push(TrackSegmentDirection::TopToRight);
        d.push(TrackSegmentDirection::LeftToRight);
        d.push(TrackSegmentDirection::LeftToRight);
        d.push(TrackSegmentDirection::LeftToRight);
        d.push(TrackSegmentDirection::LeftToRight);
        d.push(TrackSegmentDirection::LeftToRight);
        d.push(TrackSegmentDirection::LeftToRight);
        d.push(TrackSegmentDirection::LeftToBottom);
        d.push(TrackSegmentDirection::TopToLeft);
        d.push(TrackSegmentDirection::RightToLeft);
        d.push(TrackSegmentDirection::RightToLeft);
        d.push(TrackSegmentDirection::RightToLeft);
        d.push(TrackSegmentDirection::RightToLeft);
        d.push(TrackSegmentDirection::RightToLeft);
        d.push(TrackSegmentDirection::RightToLeft);
        d.push(TrackSegmentDirection::RightToLeft);
        d.push(TrackSegmentDirection::RightToTop);
        d.push(TrackSegmentDirection::BottomToTop);
        d.push(TrackSegmentDirection::BottomToTop);
        d.push(TrackSegmentDirection::BottomToTop);
        assert(d@ =~= stage_tokens());
        Track::new(0, 0, d)
    }

    /// Ends the round once every car is dead: the round counter moves on,
    /// the fitness of each car (its score) is handed out for the optimizer,
    /// and every car is put back at the start line. Otherwise nothing
    /// changes.
    pub fn reset_if_all_dead(&mut self) -> (r: Option<SetFitnessesRequest>)
        requires
            old(self).wf(),
        ensures
            final(self).wf(),
            final(self).track == old(self).track,
            final(self).auto_drive == old(self).auto_drive,
            final(self).keyboard_state == old(self).keyboard_state,
            final(self).cars@.len() == old(self).cars@.len(),
            !all_dead(old(self).cars@) ==> r is None && final(self).round == old(self).round
                && final(self).cars@ == old(self).cars@,
            all_dead(old(self).cars@) ==> rolled_over(*old(self), *final(self), r),
    {
        let mut some_alive = false;
        let mut k: usize = 0;
        while k < self.cars.len()
            invariant
                0 <= k <= self.cars@.len(),
                some_alive == exists|i: int| 0 <= i < k && (#[trigger] self.cars@[i]).status == CarStatus::Live,
            decreases self.cars@.len() - k,
        {
            if self.cars[k].status == CarStatus::Live {
                some_alive = true;
            }
            k += 1;
        }
        if some_alive {
            return None;
        }
        self.round = sat_add(self.round, 1);
        let fitness = match &self.auto_drive {
            Some(auto_drive) => Some(auto_drive.next_gen(&self.cars)),
            None => None,
        };
        let ghost cars0 = self.cars@;
        let start = FVec { x: START_X, y: START_Y };
        let mut k: usize = 0;
        while k < self.cars.len()
            invariant
                0 <= k <= self.cars@.len(),
                cars0 == old(self).cars@,
                self.track == old(self).track,
                self.auto_drive == old(self).auto_drive,
                self.keyboard_state == old(self).keyboard_state,
                self.round == clamp_i64(old(self).round + 1),
                self.track.wf(),
                self.auto_drive matches Some(a) ==> a.wf(),
                fitness_reported(*old(self), fitness),
                self.cars@.len() == cars0.len(),
                forall|i: int| 0 <= i < self.cars@.len() ==> (#[trigger] self.cars@[i]).wf(),
                forall|i: int| 0 <= i < k ==> at_start(#[trigger] self.cars@[i], cars0[i]),
                forall|i: int| k <= i < self.cars@.len() ==> #[trigger] self.cars@[i] == cars0[i],
                start == (FVec { x: START_X, y: START_Y }),
            decreases self.cars@.len() - k,
        {
            self.cars[k].reset(&start, 0);
            k += 1;
        }
        fitness
    }

    /// One tick of the stage: roll over a finished round, tick every car,
    /// then let the coordinator's timer run and, when it runs out, ask for
    /// decisions for the live cars.
    pub fn update(&mut self, delta: i64) -> (r: StageEvents)
        requires
            old(self).wf(),
            0 <= delta <= MAX_DELTA,
        ensures
            final(self).wf(),
            final(self).cars@.len() == old(self).cars@.len(),
            forall|i: int| 0 <= i < final(self).cars@.len() ==> (#[trigger] final(self).cars@[i]).id == old(self).cars@[i].id,
            !all_dead(old(self).cars@) ==> r.fitness is None && final(self).round == old(self).round,
            !all_dead(old(self).cars@) ==> forall|i: int|
                0 <= i < final(self).cars@.len() ==> car_stepped(
                    old(self).cars@[i],
                    #[trigger] final(self).cars@[i],
                    old(self).track,
                    old(self).keyboard_state,
                    old(self).auto_drive,
                    delta as int,
                ),
            all_dead(old(self).cars@) ==> final(self).round == clamp_i64(old(self).round + 1),
            all_dead(old(self).cars@) ==> fitness_reported(*old(self), r.fitness),
            all_dead(old(self).cars@) ==> forall|i: int|
                0 <= i < final(self).cars@.len() ==> restarted_and_stepped(
                    old(self).cars@[i],
                    #[trigger] final(self).cars@[i],
                    old(self).track,
                    old(self).keyboard_state,
                    old(self).auto_drive,
                    delta as int,
                ),
            r.evaluate is Some ==> old(self).auto_drive is Some,
    {
        let fitness = self.reset_if_all_dead();
        let ghost mid = self.cars@;
        let ghost s1_track = self.track;
        let ghost s1_auto = self.auto_drive;
        let ghost s1_keys = self.keyboard_state;
        let ghost s1_round = self.round;
        let mut k: usize = 0;
        while k < self.cars.len()
            invariant
                0 <= k <= self.cars@.len(),
                self.track == s1_track,
                self.auto_drive == s1_auto,
                self.keyboard_state == s1_keys,
                self.round == s1_round,
                self.cars@.len() == mid.len(),
                self.track.wf(),
                self.auto_drive matches Some(a) ==> a.wf(),
                0 <= delta <= MAX_DELTA,
                forall|i: int| 0 <= i < self.cars@.len() ==> (#[trigger] self.cars@[i]).wf(),
                forall|i: int| 0 <= i < self.cars@.len() ==> (#[trigger] self.cars@[i]).id == mid[i].id,
                forall|i: int|
                    0 <= i < k ==> car_stepped(
                        mid[i],
                        #[trigger] self.cars@[i],
                        self.track,
                        self.keyboard_state,
                        self.auto_drive,
                        delta as int,
                    ),
                forall|i: int| k <= i < self.cars@.len() ==> #[trigger] self.cars@[i] == mid[i],
            decreases self.cars@.len() - k,
        {
            self.cars[k].update(&self.track, &self.keyboard_state, &self.auto_drive, delta);
            k += 1;
        }
        proof {
            if all_dead(old(self).cars@) {
                assert forall|i: int| 0 <= i < self.cars@.len() implies restarted_and_stepped(
                    old(self).cars@[i],
                    #[trigger] self.cars@[i],
                    old(self).track,
                    old(self).keyboard_state,
                    old(self).auto_drive,
                    delta as int,
                ) by {
                    assert(at_start(mid[i], old(self).cars@[i]));
                    assert(car_stepped(mid[i], self.cars@[i], self.track, self.keyboard_state, self.auto_drive, delta as int));
                }
            }
        }
        let evaluate = match &mut self.auto_drive {
            Some(auto_drive) => {
                auto_drive.tick(delta);
                auto_drive.evaluate(&self.cars)
            },
            None => None,
        };
        StageEvents { fitness, evaluate }
    }
}

/// The fitness handed out at the end of a round: with a coordinator, the
/// score of every car in order; without one, nothing.
pub open spec fn fitness_reported(before: GameStage, r: Option<SetFitnessesRequest>) -> bool {
    match before.auto_drive {
        Some(_) => r matches Some(req) && req.fitnesses@.len() == before.cars@.len() && forall|i: int|
            0 <= i < before.cars@.len() ==> req.fitnesses@[i] == (#[trigger] before.cars@[i]).score.score,
        None => r is None,
    }
}

/// `after` is `before` rolled over to the next round.
pub open spec fn rolled_over(before: GameStage, after: GameStage, r: Option<SetFitnessesRequest>) -> bool {
    &&& after.round == clamp_i64(before.round + 1)
    &&& fitness_reported(before, r)
    &&& forall|i: int| 0 <= i < after.cars@.len() ==> at_start(#[trigger] after.cars@[i], before.cars@[i])
}

/// Once every car is dead, the next tick moves the round counter on by
/// exactly one and hands out each car's score as its fitness.
pub proof fn lemma_round_rollover(before: GameStage, after: GameStage, r: Option<SetFitnessesRequest>)
    requires
        all_dead(before.cars@),
        before.round < i64::MAX,
        before.auto_drive is Some,
        rolled_over(before, after, r),
    ensures
        after.round == before.round + 1,
        r matches Some(req) && req.fitnesses@.len() == before.cars@.len(),
        forall|i: int| 0 <= i < before.cars@.len() ==> r->Some_0.fitnesses@[i] == (#[trigger] before.cars@[i]).score.score,
{
}

} // verus!
