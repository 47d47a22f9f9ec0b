//! The camera-target state machine: spectator, a fixed tracked car, or the
//! director, which re-elects the car nearest the ball on its first frame and
//! whenever its repeating timer elapses.
//!
//! Distances arrive as comparison keys: the IEEE-754 bit patterns of the
//! squared distances. For non-negative floats the bit patterns order exactly
//! as the floats do, so the caller computes `dist_sq.to_bits()` and this
//! module picks the minimum.

use vstd::prelude::*;

use crate::game::{spec_has_car, CarInfo};

verus! {

/// What the camera is doing. `Director(0)` means the director has not yet
/// chosen a car.
#[derive(Clone, Copy, PartialEq, Eq, Structural, Debug)]
pub enum PrimaryCamera {
    Spectator,
    TrackCar(u32),
    Director(u32),
}

/// The index of the first minimum of `keys` (0 on an empty sequence).
pub open spec fn spec_first_min_index(keys: Seq<u32>) -> int
    decreases keys.len(),
{
    if keys.len() <= 1 {
        0
    } else {
        let m = spec_first_min_index(keys.drop_last());
        if keys.last() < keys[m] {
            keys.len() - 1
        } else {
            m
        }
    }
}

/// The id the director elects: the first car at minimum distance, or the
/// previous id when there are no cars to choose from.
pub open spec fn spec_director_choice(cars: Seq<CarInfo>, keys: Seq<u32>, fallback: u32) -> u32 {
    if cars.len() == 0 {
        fallback
    } else {
        cars[spec_first_min_index(keys)].id
    }
}

/// The first-min index is in range and is the first index attaining the
/// minimum.
pub proof fn lemma_first_min_index(keys: Seq<u32>)
    requires
        keys.len() > 0,
    ensures
        0 <= spec_first_min_index(keys) < keys.len(),
        forall|j: int| 0 <= j < keys.len() ==> keys[spec_first_min_index(keys)] <= #[trigger] keys[j],
        forall|j: int| 0 <= j < spec_first_min_index(keys) ==> #[trigger] keys[j] > keys[spec_first_min_index(keys)],
    decreases keys.len(),
{
    if keys.len() > 1 {
        lemma_first_min_index(keys.drop_last());
        assert(forall|j: int|
            0 <= j < keys.len() - 1 ==> #[trigger] keys[j] == keys.drop_last()[j]);
    }
}

/// Elects the car with the least distance key; ties and order resolve to the
/// first such car. With no cars, the previous id stands.
pub fn choose_director_target(cars: &Vec<CarInfo>, dist_keys: &Vec<u32>, fallback: u32) -> (r: u32)
    requires
        dist_keys@.len() == cars@.len(),
    ensures
        r == spec_director_choice(cars@, dist_keys@, fallback),
{
    if cars.len() == 0 {
        return fallback;
    }
    let mut best: usize = 0;
    let mut i: usize = 1;
    proof {
        assert(dist_keys@.take(1) =~= seq![dist_keys@[0]]);
        assert(spec_first_min_index(dist_keys@.take(1)) == 0);
    }
    while i < dist_keys.len()
        invariant
            1 <= i <= dist_keys@.len(),
            dist_keys@.len() == cars@.len(),
            best < i,
            best == spec_first_min_index(dist_keys@.take(i as int)),
        decreases dist_keys@.len() - i,
    {
        let ghost pre = dist_keys@.take(i as int);
        if dist_keys[i] < dist_keys[best] {
            best = i;
        }
        i = i + 1;
        proof {
            let taken = dist_keys@.take(i as int);
            assert(taken.drop_last() =~= pre);
            assert(taken.last() == dist_keys@[i - 1]);
            assert(taken.len() > 1);
            assert(best == spec_first_min_index(taken));
        }
    }
    proof {
        assert(dist_keys@.take(dist_keys@.len() as int) =~= dist_keys@);
    }
    cars[best].id
}

/// One frame of the camera-target state machine. The spectator tracks
/// nothing; a fixed target is kept as long as a car with that id exists in
/// the current snapshot; the director re-elects on its first frame
/// (`id == 0`) or when its timer has elapsed, and otherwise keeps its car.
/// A missing car skips the frame's update (`None`) without changing state:
/// cars may leave and respawn.
pub fn update_camera_target(
    camera: &mut PrimaryCamera,
    timer_finished: bool,
    cars: &Vec<CarInfo>,
    dist_keys: &Vec<u32>,
) -> (target: Option<u32>)
    requires
        dist_keys@.len() == cars@.len(),
    ensures
        match *old(camera) {
            PrimaryCamera::Spectator => *final(camera) == *old(camera) && target is None,
            PrimaryCamera::TrackCar(id) => *final(camera) == *old(camera) && target == (
            if spec_has_car(cars@, id) {
                Some(id)
            } else {
                None::<u32>
            }),
            PrimaryCamera::Director(id) => {
                let new_id = if id == 0 || timer_finished {
                    spec_director_choice(cars@, dist_keys@, id)
                } else {
                    id
                };
                &&& *final(camera) == PrimaryCamera::Director(new_id)
                &&& target == (if spec_has_car(cars@, new_id) {
                    Some(new_id)
                } else {
                    None::<u32>
                })
            },
        },
{
    match *camera {
        PrimaryCamera::Spectator => None,
        PrimaryCamera::TrackCar(id) => {
            match crate::game::find_car_index(cars, id) {
                Some(_) => Some(id),
                None => None,
            }
        },
        PrimaryCamera::Director(id) => {
            let new_id = if id == 0 || timer_finished {
                choose_director_target(cars, dist_keys, id)
            } else {
                id
            };
            *camera = PrimaryCamera::Director(new_id);
            match crate::game::find_car_index(cars, new_id) {
                Some(_) => Some(new_id),
                None => None,
            }
        },
    }
}

} // verus!
