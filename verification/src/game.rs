//! The decoded simulation snapshot: one `GameState` per accepted tick,
//! holding the ball, the car list and the boost-pad list.

use vstd::prelude::*;

use crate::math::{RotMat, Vec3};

verus! {

/// Which side a car plays on.
#[derive(Clone, Copy, PartialEq, Eq, Structural, Debug)]
pub enum Team {
    Blue,
    Orange,
}

/// The arena layout the server is simulating.
#[derive(Clone, Copy, PartialEq, Eq, Structural, Debug)]
pub enum GameMode {
    Soccar,
    Hoops,
    Heatseeker,
    Snowday,
    TheVoid,
}

/// The driver inputs last applied to a car. Scalar axes are IEEE-754 single
/// bit patterns.
#[derive(Clone, Copy, PartialEq, Eq, Structural, Debug)]
pub struct CarControls {
    pub throttle: u32,
    pub steer: u32,
    pub pitch: u32,
    pub yaw: u32,
    pub roll: u32,
    pub boost: bool,
    pub jump: bool,
    pub handbrake: bool,
}

/// Static geometry of one axle pair of a car.
#[derive(Clone, Copy, PartialEq, Eq, Structural, Debug)]
pub struct WheelPairConfig {
    pub wheel_radius: u32,
    pub suspension_rest_length: u32,
    pub connection_point_offset: Vec3,
}

/// Static hitbox and wheel geometry of a car, fixed for its lifetime.
#[derive(Clone, Copy, PartialEq, Eq, Structural, Debug)]
pub struct CarConfig {
    pub hitbox_size: Vec3,
    pub front_wheels: WheelPairConfig,
    pub back_wheels: WheelPairConfig,
}

/// Which of a car's four wheels touch a surface.
#[derive(Clone, Copy, PartialEq, Eq, Structural, Debug)]
pub struct WheelsWithContact {
    pub front_left: bool,
    pub front_right: bool,
    pub back_left: bool,
    pub back_right: bool,
}

/// The dynamic state of one car at one tick.
#[derive(Clone, Copy, PartialEq, Eq, Structural, Debug)]
pub struct CarState {
    pub pos: Vec3,
    pub vel: Vec3,
    pub ang_vel: Vec3,
    pub rot_mat: RotMat,
    pub boost: u32,
    pub is_demoed: bool,
    pub is_on_ground: bool,
    pub wheels_with_contact: WheelsWithContact,
    pub last_controls: CarControls,
}

/// One car in a snapshot. `id` is server-assigned and identifies the car
/// across snapshots; within one snapshot no two cars share an `id`.
#[derive(Clone, Copy, PartialEq, Eq, Structural, Debug)]
pub struct CarInfo {
    pub id: u32,
    pub team: Team,
    pub config: CarConfig,
    pub state: CarState,
}

/// The ball's state at one tick.
#[derive(Clone, Copy, PartialEq, Eq, Structural, Debug)]
pub struct BallState {
    pub pos: Vec3,
    pub vel: Vec3,
    pub ang_vel: Vec3,
    pub rot_mat: RotMat,
}

/// One boost pad and whether it currently has boost to give.
#[derive(Clone, Copy, PartialEq, Eq, Structural, Debug)]
pub struct BoostPadState {
    pub position: Vec3,
    pub is_big: bool,
    pub is_active: bool,
}

/// The largest car count a snapshot may carry on the wire.
pub const MAX_CARS: u32 = 64;

/// The largest boost-pad count a snapshot may carry on the wire.
pub const MAX_PADS: u32 = 1024;

/// One full simulation snapshot.
#[derive(PartialEq, Debug)]
pub struct GameState {
    pub tick_count: u64,
    pub tick_rate: u32,
    pub game_mode: GameMode,
    pub ball: BallState,
    pub cars: Vec<CarInfo>,
    pub pads: Vec<BoostPadState>,
}

/// The mathematical value of a `GameState`: the same fields with the lists
/// abstracted to sequences.
#[verifier::ext_equal]
pub ghost struct GameStateView {
    pub tick_count: u64,
    pub tick_rate: u32,
    pub game_mode: GameMode,
    pub ball: BallState,
    pub cars: Seq<CarInfo>,
    pub pads: Seq<BoostPadState>,
}

impl View for GameState {
    type V = GameStateView;

    open spec fn view(&self) -> GameStateView {
        GameStateView {
            tick_count: self.tick_count,
            tick_rate: self.tick_rate,
            game_mode: self.game_mode,
            ball: self.ball,
            cars: self.cars@,
            pads: self.pads@,
        }
    }
}

/// A snapshot that fits on the wire: its lists are within the supported
/// maxima, so their lengths can be written as the header's count fields.
pub open spec fn wf_game_state(g: GameStateView) -> bool {
    &&& g.cars.len() <= MAX_CARS
    &&& g.pads.len() <= MAX_PADS
}

/// Copies a vector of plain values element by element.
pub fn copy_vec<T: Copy>(v: &Vec<T>) -> (r: Vec<T>)
    ensures
        r@ == v@,
{
    let mut r: Vec<T> = Vec::new();
    let mut i: usize = 0;
    while i < v.len()
        invariant
            i <= v@.len(),
            r@ == v@.take(i as int),
        decreases v@.len() - i,
    {
        r.push(v[i]);
        i = i + 1;
        assert(r@ =~= v@.take(i as int));
    }
    assert(r@ =~= v@);
    r
}

/// The zeroed snapshot a connection starts from.
pub open spec fn spec_empty_game_state() -> GameStateView {
    GameStateView {
        tick_count: 0,
        tick_rate: 0,
        game_mode: GameMode::Soccar,
        ball: BallState {
            pos: Vec3 { x: 0, y: 0, z: 0 },
            vel: Vec3 { x: 0, y: 0, z: 0 },
            ang_vel: Vec3 { x: 0, y: 0, z: 0 },
            rot_mat: crate::math::spec_rot_mat_identity(),
        },
        cars: Seq::empty(),
        pads: Seq::empty(),
    }
}

impl GameState {
    /// A zeroed snapshot, the value a connection starts from.
    pub fn empty() -> (r: GameState)
        ensures
            r@ == spec_empty_game_state(),
    {
        let r = GameState {
            tick_count: 0,
            tick_rate: 0,
            game_mode: GameMode::Soccar,
            ball: BallState {
                pos: Vec3::zero(),
                vel: Vec3::zero(),
                ang_vel: Vec3::zero(),
                rot_mat: RotMat::identity(),
            },
            cars: Vec::new(),
            pads: Vec::new(),
        };
        proof {
            assert(r@ =~= spec_empty_game_state());
        }
        r
    }

    /// An independent copy with the same mathematical value.
    pub fn duplicate(&self) -> (r: GameState)
        ensures
            r@ == self@,
    {
        let r = GameState {
            tick_count: self.tick_count,
            tick_rate: self.tick_rate,
            game_mode: self.game_mode,
            ball: self.ball,
            cars: copy_vec(&self.cars),
            pads: copy_vec(&self.pads),
        };
        assert(r@ =~= self@);
        r
    }
}

/// Whether some car in `cars` carries `id`.
pub open spec fn spec_has_car(cars: Seq<CarInfo>, id: u32) -> bool {
    exists|i: int| 0 <= i < cars.len() && cars[i].id == id
}

/// The least index in `cars` whose car carries `id`, or `None`.
pub fn find_car_index(cars: &Vec<CarInfo>, id: u32) -> (r: Option<usize>)
    ensures
        match r {
            Some(i) => {
                &&& i < cars@.len()
                &&& cars@[i as int].id == id
                &&& forall|j: int| 0 <= j < i ==> cars@[j].id != id
            },
            None => !spec_has_car(cars@, id),
        },
{
    let mut i: usize = 0;
    while i < cars.len()
        invariant
            i <= cars@.len(),
            forall|j: int| 0 <= j < i ==> cars@[j].id != id,
        decreases cars@.len() - i,
    {
        if cars[i].id == id {
            return Some(i);
        }
        i = i + 1;
    }
    None
}

} // verus!
