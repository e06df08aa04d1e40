//! What drives a car: the arrow keys, a fixed rule, or decisions that an
//! outside optimizer computed for the whole population.
use vstd::prelude::*;
use std::collections::HashMap;
use crate::angle::HALF_TURN;
use crate::car::{Car, CarStatus, Movement};
use crate::geometry::{clamp_i64, sat_add, tdiv};
use crate::ids::new_id;
use crate::sensor::SENSOR_RANGE;

verus! {

broadcast use vstd::std_specs::hash::group_hash_axioms;

/// How many features describe one car to the optimizer.
pub const NUM_INPUTS: u32 = 7;

/// How many decisions the optimizer returns for one car.
pub const NUM_OUTPUTS: u32 = 4;

/// A decision above this value, in millionths, is taken.
pub const DECISION_THRESHOLD: i64 = 500_000;

/// The fixed-point unit of features and decisions.
pub const FEATURE_ONE: i64 = 1_000_000;

#[derive(Clone, Copy, Debug, PartialEq, Eq, Structural)]
pub enum ArrowKey {
    ArrowLeft,
    ArrowRight,
    ArrowUp,
    ArrowDown,
}

/// Which arrow keys are held.
#[derive(Clone, Copy, Debug, PartialEq, Eq, Structural)]
pub struct KeyboardState {
    pub left: bool,
    pub right: bool,
    pub up: bool,
    pub down: bool,
}

impl KeyboardState {
    pub open spec fn held(&self, key: ArrowKey) -> bool {
        match key {
            ArrowKey::ArrowLeft => self.left,
            ArrowKey::ArrowRight => self.right,
            ArrowKey::ArrowUp => self.up,
            ArrowKey::ArrowDown => self.down,
        }
    }

    pub fn new() -> (r: KeyboardState)
        ensures
            !r.left && !r.right && !r.up && !r.down,
    {
        KeyboardState { left: false, right: false, up: false, down: false }
    }

    pub fn press(&mut self, key: ArrowKey)
        ensures
            final(self).held(key),
            forall|k: ArrowKey| k != key ==> final(self).held(k) == old(self).held(k),
    {
        self.set(key, true)
    }

    pub fn is_pressed(&self, key: ArrowKey) -> (r: bool)
        ensures
            r == self.held(key),
    {
        match key {
            ArrowKey::ArrowLeft => self.left,
            ArrowKey::ArrowRight => self.right,
            ArrowKey::ArrowUp => self.up,
            ArrowKey::ArrowDown => self.down,
        }
    }

    pub fn set_released(&mut self, key: ArrowKey)
        ensures
            !final(self).held(key),
            forall|k: ArrowKey| k != key ==> final(self).held(k) == old(self).held(k),
    {
        self.set(key, false)
    }

    fn set(&mut self, key: ArrowKey, held: bool)
        ensures
            final(self).held(key) == held,
            forall|k: ArrowKey| k != key ==> final(self).held(k) == old(self).held(k),
    {
        match key {
            ArrowKey::ArrowLeft => self.left = held,
            ArrowKey::ArrowRight => self.right = held,
            ArrowKey::ArrowUp => self.up = held,
            ArrowKey::ArrowDown => self.down = held,
        }
    }
}

/// The intents of the arrow keys: one for steering, one for throttle.
pub open spec fn key_moves(keys: KeyboardState) -> Seq<Movement> {
    let turn = if keys.left {
        Movement::Left
    } else if keys.right {
        Movement::Right
    } else {
        Movement::NotTurning
    };
    let throttle = if keys.up {
        Movement::Forward
    } else if keys.down {
        Movement::Backward
    } else {
        Movement::NotAccelarate
    };
    seq![turn, throttle]
}

pub open spec fn pick(taken: bool, m: Movement) -> Seq<Movement> {
    if taken {
        seq![m]
    } else {
        seq![]
    }
}

/// The intents of a decision row, channel by channel: forward, right,
/// backward, left, each taken above the threshold.
pub open spec fn decision_moves(out: [i64; 4]) -> Seq<Movement> {
    pick(out[0] > DECISION_THRESHOLD, Movement::Forward) + pick(out[1] > DECISION_THRESHOLD, Movement::Right)
        + pick(out[2] > DECISION_THRESHOLD, Movement::Backward) + pick(
        out[3] > DECISION_THRESHOLD,
        Movement::Left,
    )
}

/// The intents of the car `id` under the optimizer's latest decisions;
/// none before any decision came.
pub open spec fn auto_moves(auto_drive: Option<AutoDrive>, id: u128) -> Seq<Movement> {
    match auto_drive {
        Some(a) => if a.controllers@.contains_key(id) {
            match a.controllers@[id] {
                Some(out) => decision_moves(out),
                None => seq![],
            }
        } else {
            seq![]
        },
        None => seq![],
    }
}

#[derive(Clone, Copy, Debug, PartialEq, Eq, Structural)]
pub struct KeyController {
    pub id: u128,
}

impl KeyController {
    pub fn new(id: u128) -> (r: KeyController)
        ensures
            r.id == id,
    {
        KeyController { id }
    }
}

/// Always drives forward.
#[derive(Clone, Copy, Debug, PartialEq, Eq, Structural)]
pub struct SimpleController {}

#[derive(Clone, Copy, Debug, PartialEq, Eq, Structural)]
pub struct AutoDriveController {
    pub id: u128,
}

impl AutoDriveController {
    /// A controller for the car `id`, registered with the coordinator.
    pub fn new(id: u128, auto_drive: &mut AutoDrive) -> (r: AutoDriveController)
        requires
            old(auto_drive).wf(),
        ensures
            r.id == id,
            final(auto_drive).wf(),
            final(auto_drive).registered(id),
            final(auto_drive).controllers@ == old(auto_drive).controllers@.insert(id, None),
            final(auto_drive).timer == old(auto_drive).timer,
    {
        auto_drive.register(id);
        AutoDriveController { id }
    }
}

#[derive(Clone, Copy, Debug, PartialEq, Eq, Structural)]
pub enum CarController {
    Key(KeyController),
    Simple(SimpleController),
    AutoDrive(AutoDriveController),
}

/// The intents a controller gives, from the keys held and the coordinator.
pub open spec fn controller_moves(c: CarController, keys: KeyboardState, auto_drive: Option<AutoDrive>) -> Seq<
    Movement,
> {
    match c {
        CarController::Key(_) => key_moves(keys),
        CarController::Simple(_) => seq![Movement::Forward],
        CarController::AutoDrive(a) => auto_moves(auto_drive, a.id),
    }
}

impl CarController {
    /// The car's id; the fixed rule has none and makes up a fresh one.
    pub fn get_id(&self) -> (r: u128)
        ensures
            self matches CarController::Key(k) ==> r == k.id,
            self matches CarController::AutoDrive(a) ==> r == a.id,
    {
        match self {
            CarController::Key(k) => k.id,
            CarController::Simple(_) => new_id(),
            CarController::AutoDrive(a) => a.id,
        }
    }

    pub fn next_movements(&self, keys: &KeyboardState, auto_drive: &Option<AutoDrive>) -> (r: Vec<Movement>)
        ensures
            r@ == controller_moves(*self, *keys, *auto_drive),
    {
        let mut movements: Vec<Movement> = Vec::new();
        match self {
            CarController::Key(_) => {
                if keys.is_pressed(ArrowKey::ArrowLeft) {
                    movements.push(Movement::Left);
                } else if keys.is_pressed(ArrowKey::ArrowRight) {
                    movements.push(Movement::Right);
                } else {
                    movements.push(Movement::NotTurning);
                }
                if keys.is_pressed(ArrowKey::ArrowUp) {
                    movements.push(Movement::Forward);
                } else if keys.is_pressed(ArrowKey::ArrowDown) {
                    movements.push(Movement::Backward);
                } else {
                    movements.push(Movement::NotAccelarate);
                }
                assert(movements@ =~= key_moves(*keys));
            },
            CarController::Simple(_) => {
                movements.push(Movement::Forward);
                assert(movements@ =~= seq![Movement::Forward]);
            },
            CarController::AutoDrive(a) => {
                if let Some(auto) = auto_drive {
                    if let Some(Some(out)) = auto.controllers.get(&a.id) {
                        if out[0] > DECISION_THRESHOLD {
                            movements.push(Movement::Forward);
                        }
                        if out[1] > DECISION_THRESHOLD {
                            movements.push(Movement::Right);
                        }
                        if out[2] > DECISION_THRESHOLD {
                            movements.push(Movement::Backward);
                        }
                        if out[3] > DECISION_THRESHOLD {
                            movements.push(Movement::Left);
                        }
                        assert(movements@ =~= decision_moves(*out));
                    }
                }
            },
        }
        movements
    }
}

/// Counts simulated time toward a fixed interval.
#[derive(Clone, Copy, Debug, PartialEq, Eq, Structural)]
pub struct Timer {
    pub timeout: i64,
    pub ellapsed: i64,
}

impl Timer {
    pub open spec fn wf(&self) -> bool {
        self.timeout > 0 && self.ellapsed >= 0
    }

    pub fn new(timeout: i64) -> (r: Timer)
        requires
            timeout > 0,
        ensures
            r.wf(),
            r.timeout == timeout,
            r.ellapsed == 0,
    {
        Timer { timeout, ellapsed: 0 }
    }

    pub fn tick(&mut self, delta: i64)
        requires
            old(self).wf(),
            delta >= 0,
        ensures
            final(self).wf(),
            final(self).timeout == old(self).timeout,
            final(self).ellapsed == clamp_i64(old(self).ellapsed + delta),
    {
        self.ellapsed = sat_add(self.ellapsed, delta);
    }

    /// Keeps only the time past the last whole interval.
    pub fn reset(&mut self)
        requires
            old(self).wf(),
        ensures
            final(self).wf(),
            final(self).timeout == old(self).timeout,
            final(self).ellapsed == old(self).ellapsed % old(self).timeout,
    {
        self.ellapsed = self.ellapsed % self.timeout;
    }

    pub fn timeout(&self) -> (r: bool)
        ensures
            r == (self.ellapsed > self.timeout),
    {
        self.ellapsed > self.timeout
    }
}

/// The body of the request that creates the optimizer's population.
#[derive(Clone, Copy, Debug, PartialEq, Eq, Structural)]
pub struct NewGenRequest {
    pub num_of_cars: u32,
    pub num_of_args: u32,
    pub num_of_outputs: u32,
}

/// The features of the live cars, one row each, and whose rows they are.
pub struct EvaluteRequest {
    pub ids: Vec<u128>,
    pub inputs: Vec<Vec<i64>>,
}

/// The fitness of every car, in the order the cars were registered.
pub struct SetFitnessesRequest {
    pub fitnesses: Vec<i64>,
}

/// Why a batch of decisions was turned down.
#[derive(Clone, Copy, Debug, PartialEq, Eq, Structural)]
pub enum DecisionError {
    /// The number of rows differs from the number of cars asked about.
    RowCount,
    /// A row does not hold one value per output channel.
    RowLength,
}

/// The feature `v`, relative to `unit`, in millionths.
pub open spec fn feature(v: int, unit: int) -> int {
    tdiv(v * FEATURE_ONE, unit)
}

/// What the optimizer is told of a car: its four sensor readings and its
/// speed relative to the sensor range, its heading and the heading of its
/// segment relative to half a turn.
pub open spec fn features_spec(car: Car) -> Seq<i64> {
    let r = SENSOR_RANGE as int;
    let h = HALF_TURN as int;
    seq![
        feature(car.sensor.forward_dis as int, r) as i64,
        feature(car.sensor.right_dis as int, r) as i64,
        feature(car.sensor.back_dis as int, r) as i64,
        feature(car.sensor.left_dis as int, r) as i64,
        feature(car.velocity as int, r) as i64,
        feature(car.body.rotate as int, h) as i64,
        feature(car.sensor.track_direction as int, h) as i64,
    ]
}

/// The ids of the live cars among the first `n`, in order.
pub open spec fn live_ids(cars: Seq<Car>, n: int) -> Seq<u128>
    decreases n,
{
    if n <= 0 {
        seq![]
    } else if cars[n - 1].status == CarStatus::Live {
        live_ids(cars, n - 1).push(cars[n - 1].id)
    } else {
        live_ids(cars, n - 1)
    }
}

/// The features of the live cars among the first `n`, in order.
pub open spec fn live_features(cars: Seq<Car>, n: int) -> Seq<Seq<i64>>
    decreases n,
{
    if n <= 0 {
        seq![]
    } else if cars[n - 1].status == CarStatus::Live {
        live_features(cars, n - 1).push(features_spec(cars[n - 1]))
    } else {
        live_features(cars, n - 1)
    }
}

/// The decisions after the first `n` rows of a batch have been stored,
/// each replacing what its car had.
pub open spec fn decisions_after(
    m: Map<u128, Option<[i64; 4]>>,
    ids: Seq<u128>,
    rows: Seq<Vec<i64>>,
    n: int,
) -> Map<u128, Option<[i64; 4]>>
    decreases n,
{
    if n <= 0 {
        m
    } else {
        let r = rows[n - 1]@;
        decisions_after(m, ids, rows, n - 1).insert(ids[n - 1], Some([r[0], r[1], r[2], r[3]]))
    }
}

/// Whether every row of a batch holds one value per output channel.
pub open spec fn rows_well_shaped(rows: Seq<Vec<i64>>) -> bool {
    forall|i: int| 0 <= i < rows.len() ==> (#[trigger] rows[i])@.len() == NUM_OUTPUTS
}

/// How a batch of decisions is judged: it needs one row per car asked
/// about, and one value per output channel in each row.
pub open spec fn batch_result(ids: Seq<u128>, rows: Seq<Vec<i64>>) -> Result<(), DecisionError> {
    if ids.len() != rows.len() {
        Err(DecisionError::RowCount)
    } else if !rows_well_shaped(rows) {
        Err(DecisionError::RowLength)
    } else {
        Ok(())
    }
}

/// The decisions once a batch has come: all its rows stored if it is well
/// formed, else what there was.
pub open spec fn stored_after(m: Map<u128, Option<[i64; 4]>>, ids: Seq<u128>, rows: Seq<Vec<i64>>) -> Map<
    u128,
    Option<[i64; 4]>,
> {
    if batch_result(ids, rows) is Ok {
        decisions_after(m, ids, rows, ids.len() as int)
    } else {
        m
    }
}

/// The coordinator: the latest decisions for each registered car, and the
/// timer that paces requests for new ones.
pub struct AutoDrive {
    /// The registered cars, in the order they registered.
    pub order: Vec<u128>,
    /// The latest decisions of each registered car; none before the first.
    pub controllers: HashMap<u128, Option<[i64; 4]>>,
    pub timer: Timer,
}

impl AutoDrive {
    pub open spec fn wf(&self) -> bool {
        &&& self.timer.wf()
        &&& forall|id: u128| #[trigger] self.order@.contains(id) ==> self.controllers@.contains_key(id)
    }

    pub open spec fn registered(&self, id: u128) -> bool {
        self.controllers@.contains_key(id)
    }

    /// A coordinator that asks for decisions every `update_interval`
    /// microseconds.
    pub fn new(update_interval: i64) -> (r: AutoDrive)
        requires
            update_interval > 0,
        ensures
            r.wf(),
            r.order@.len() == 0,
            r.controllers@.is_empty(),
            r.timer == (Timer { timeout: update_interval, ellapsed: 0 }),
    {
        AutoDrive { order: Vec::new(), controllers: HashMap::new(), timer: Timer::new(update_interval) }
    }

    /// Registers a car with no decision yet.
    pub fn register(&mut self, id: u128)
        requires
            old(self).wf(),
        ensures
            final(self).wf(),
            final(self).controllers@ == old(self).controllers@.insert(id, None),
            final(self).order@ == if old(self).registered(id) {
                old(self).order@
            } else {
                old(self).order@.push(id)
            },
            final(self).timer == old(self).timer,
    {
        if !self.controllers.contains_key(&id) {
            self.order.push(id);
        }
        self.controllers.insert(id, None);
        proof {
            assert forall|k: u128| #[trigger] self.order@.contains(k) implies self.controllers@.contains_key(k) by {
                if k != id {
                    let j = choose|j: int| 0 <= j < self.order@.len() && self.order@[j] == k;
                    if !old(self).registered(id) {
                        assert(j < old(self).order@.len());
                    }
                    assert(old(self).order@[j] == k);
                    assert(old(self).order@.contains(k));
                }
            }
        }
    }

    /// The request that creates one network per registered car.
    pub fn new_network(&self) -> (r: NewGenRequest)
        requires
            self.order@.len() <= u32::MAX,
        ensures
            r == (NewGenRequest {
                num_of_cars: self.order@.len() as u32,
                num_of_args: NUM_INPUTS,
                num_of_outputs: NUM_OUTPUTS,
            }),
    {
        NewGenRequest { num_of_cars: self.order.len() as u32, num_of_args: NUM_INPUTS, num_of_outputs: NUM_OUTPUTS }
    }

    /// Once the interval has run out, restarts it and gives the features of
    /// every live car; before that, nothing.
    pub fn evaluate(&mut self, cars: &Vec<Car>) -> (r: Option<EvaluteRequest>)
        requires
            old(self).wf(),
            forall|i: int| 0 <= i < cars@.len() ==> (#[trigger] cars@[i]).wf(),
        ensures
            final(self).wf(),
            final(self).controllers@ == old(self).controllers@,
            final(self).order@ == old(self).order@,
            if old(self).timer.ellapsed > old(self).timer.timeout {
                &&& final(self).timer.timeout == old(self).timer.timeout
                &&& final(self).timer.ellapsed == old(self).timer.ellapsed % old(self).timer.timeout
                &&& r matches Some(req) && req.ids@ == live_ids(cars@, cars@.len() as int)
                    && req.inputs@.len() == live_features(cars@, cars@.len() as int).len()
                    && forall|i: int|
                    0 <= i < req.inputs@.len() ==> (#[trigger] req.inputs@[i])@ == live_features(
                        cars@,
                        cars@.len() as int,
                    )[i]
            } else {
                r is None && final(self).timer == old(self).timer
            },
    {
        if !self.timer.timeout() {
            return None;
        }
        self.timer.reset();
        let mut ids: Vec<u128> = Vec::new();
        let mut inputs: Vec<Vec<i64>> = Vec::new();
        let mut k: usize = 0;
        while k < cars.len()
            invariant
                0 <= k <= cars@.len(),
                forall|i: int| 0 <= i < cars@.len() ==> (#[trigger] cars@[i]).wf(),
                ids@ == live_ids(cars@, k as int),
                inputs@.len() == live_features(cars@, k as int).len(),
                forall|i: int| 0 <= i < inputs@.len() ==> (#[trigger] inputs@[i])@ == live_features(cars@, k as int)[i],
            decreases cars@.len() - k,
        {
            let car = &cars[k];
            assert(car.wf());
            if car.status == CarStatus::Live {
                ids.push(car.id);
                inputs.push(features(car));
            }
            k += 1;
        }
        Some(EvaluteRequest { ids, inputs })
    }

    /// Stores a batch of decisions, row `i` for the car `ids[i]`, replacing
    /// what each had. A batch of the wrong shape changes nothing.
    pub fn apply_outputs(&mut self, ids: &Vec<u128>, outputs: &Vec<Vec<i64>>) -> (r: Result<(), DecisionError>)
        requires
            old(self).wf(),
        ensures
            final(self).wf(),
            final(self).timer == old(self).timer,
            final(self).order@ == old(self).order@,
            r == batch_result(ids@, outputs@),
            final(self).controllers@ == stored_after(old(self).controllers@, ids@, outputs@),
    {
        if ids.len() != outputs.len() {
            return Err(DecisionError::RowCount);
        }
        let mut k: usize = 0;
        while k < outputs.len()
            invariant
                0 <= k <= outputs@.len(),
                ids@.len() == outputs@.len(),
                forall|i: int| 0 <= i < k ==> (#[trigger] outputs@[i])@.len() == NUM_OUTPUTS,
                self.wf(),
                self.controllers@ == old(self).controllers@,
                self.order@ == old(self).order@,
                self.timer == old(self).timer,
            decreases outputs@.len() - k,
        {
            if outputs[k].len() != 4 {
                assert(outputs@[k as int]@.len() != NUM_OUTPUTS);
                return Err(DecisionError::RowLength);
            }
            k += 1;
        }
        let mut k: usize = 0;
        while k < ids.len()
            invariant
                0 <= k <= ids@.len(),
                ids@.len() == outputs@.len(),
                rows_well_shaped(outputs@),
                self.controllers@ == decisions_after(old(self).controllers@, ids@, outputs@, k as int),
                self.timer == old(self).timer,
                self.order@ == old(self).order@,
                self.wf(),
            decreases ids@.len() - k,
        {
            let row = &outputs[k];
            assert(row@.len() == NUM_OUTPUTS);
            let out = [row[0], row[1], row[2], row[3]];
            self.controllers.insert(ids[k], Some(out));
            k += 1;
        }
        Ok(())
    }

    /// The fitness of every car: its score at this moment.
    pub fn next_gen(&self, cars: &Vec<Car>) -> (r: SetFitnessesRequest)
        ensures
            r.fitnesses@.len() == cars@.len(),
            forall|i: int| 0 <= i < cars@.len() ==> r.fitnesses@[i] == (#[trigger] cars@[i]).score.score,
    {
        let mut scores: Vec<i64> = Vec::new();
        let mut k: usize = 0;
        while k < cars.len()
            invariant
                0 <= k <= cars@.len(),
                scores@.len() == k,
                forall|i: int| 0 <= i < k ==> scores@[i] == (#[trigger] cars@[i]).score.score,
            decreases cars@.len() - k,
        {
            scores.push(cars[k].score.score);
            k += 1;
        }
        SetFitnessesRequest { fitnesses: scores }
    }

    pub fn tick(&mut self, delta: i64)
        requires
            old(self).wf(),
            delta >= 0,
        ensures
            final(self).wf(),
            final(self).controllers@ == old(self).controllers@,
            final(self).order@ == old(self).order@,
            final(self).timer.timeout == old(self).timer.timeout,
            final(self).timer.ellapsed == clamp_i64(old(self).timer.ellapsed + delta),
    {
        self.timer.tick(delta)
    }
}

/// The seven features of a car.
pub fn features(car: &Car) -> (r: Vec<i64>)
    requires
        car.wf(),
    ensures
        r@ == features_spec(*car),
{
    let r = SENSOR_RANGE as i128;
    let h = HALF_TURN as i128;
    let one = FEATURE_ONE as i128;
    let mut v: Vec<i64> = Vec::new();
    v.push(((car.sensor.forward_dis as i128) * one / r) as i64);
    v.push(((car.sensor.right_dis as i128) * one / r) as i64);
    v.push(((car.sensor.back_dis as i128) * one / r) as i64);
    v.push(((car.sensor.left_dis as i128) * one / r) as i64);
    v.push(((car.velocity as i128) * one / r) as i64);
    v.push(((car.body.rotate as i128) * one / h) as i64);
    v.push(((car.sensor.track_direction as i128) * one / h) as i64);
    assert(v@ =~= features_spec(*car));
    v
}

} // verus!
