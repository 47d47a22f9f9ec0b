//! The triple-buffered snapshot store: `last`, `current`, `next`, advanced
//! wholesale on each accepted snapshot according to the active smoothing
//! policy. `current` is what consumers see for one presentation frame;
//! `last` and `next` bracket it under interpolation.

use vstd::prelude::*;

use crate::game::{spec_has_car, BallState, GameState, GameStateView};
use crate::packet::spec_accepts_tick;

verus! {

/// The smoothing policy, an external configuration value chosen per frame.
/// `Snap` pins `current` to the newest snapshot; `Extrapolate` integrates it
/// forward; `Interpolate` blends between the bracketing snapshots.
#[derive(Clone, Copy, PartialEq, Eq, Structural, Debug)]
pub enum PacketSmoothing {
    Snap,
    Extrapolate,
    Interpolate,
}

/// The three buffered snapshot generations.
pub struct GameStates {
    pub last: GameState,
    pub current: GameState,
    pub next: GameState,
}

/// The mathematical value of the buffer: its three snapshot views.
#[verifier::ext_equal]
pub ghost struct GameStatesView {
    pub last: GameStateView,
    pub current: GameStateView,
    pub next: GameStateView,
}

impl View for GameStates {
    type V = GameStatesView;

    open spec fn view(&self) -> GameStatesView {
        GameStatesView { last: self.last@, current: self.current@, next: self.next@ }
    }
}

/// What installing an accepted snapshot does to the buffer, as a function on
/// views.
///
/// Under `Snap` and `Extrapolate` the old `next` becomes `last`, the new
/// snapshot becomes `next`, and `current` snaps to it at once; when the
/// "recompute ball rotation" option is on, the installed snapshot carries the
/// last rendered ball orientation forward instead of its own, so kinematic
/// rotation continues from what is on screen rather than jumping.
///
/// Under `Interpolate` the old `next` becomes both `last` and `current` — the
/// presentation does not jump ahead to data it has not blended towards — and
/// the new snapshot becomes `next`, closing the bracket.
pub open spec fn spec_advance(
    pre: GameStatesView,
    mode: PacketSmoothing,
    new_state: GameStateView,
    calc_ball_rot: bool,
) -> GameStatesView {
    match mode {
        PacketSmoothing::Snap | PacketSmoothing::Extrapolate => {
            let installed = if calc_ball_rot {
                GameStateView {
                    ball: BallState { rot_mat: pre.current.ball.rot_mat, ..new_state.ball },
                    ..new_state
                }
            } else {
                new_state
            };
            GameStatesView { last: pre.next, current: installed, next: installed }
        },
        PacketSmoothing::Interpolate => GameStatesView {
            last: pre.next,
            current: pre.next,
            next: new_state,
        },
    }
}

impl GameStates {
    /// The zeroed buffer a connection starts from.
    pub fn new_session() -> (r: GameStates)
        ensures
            r@.last == crate::game::spec_empty_game_state(),
            r@.current == crate::game::spec_empty_game_state(),
            r@.next == crate::game::spec_empty_game_state(),
    {
        GameStates {
            last: GameState::empty(),
            current: GameState::empty(),
            next: GameState::empty(),
        }
    }

    /// Installs an accepted snapshot according to the active policy.
    pub fn advance(
        &mut self,
        packet_smoothing: PacketSmoothing,
        new_state: GameState,
        calc_ball_rot: bool,
    )
        ensures
            final(self)@ == spec_advance(old(self)@, packet_smoothing, new_state@, calc_ball_rot),
    {
        match packet_smoothing {
            PacketSmoothing::Snap | PacketSmoothing::Extrapolate => {
                core::mem::swap(&mut self.last, &mut self.next);
                self.next = new_state;
                if calc_ball_rot {
                    self.next.ball.rot_mat = self.current.ball.rot_mat;
                }
                self.current = self.next.duplicate();
                proof {
                    assert(self@ =~~= spec_advance(
                        old(self)@,
                        packet_smoothing,
                        new_state@,
                        calc_ball_rot,
                    ));
                }
            },
            PacketSmoothing::Interpolate => {
                core::mem::swap(&mut self.last, &mut self.next);
                self.current = self.last.duplicate();
                self.next = new_state;
                proof {
                    assert(self@ =~~= spec_advance(
                        old(self)@,
                        packet_smoothing,
                        new_state@,
                        calc_ball_rot,
                    ));
                }
            },
        }
    }

    /// Pairs cars across the bracket for interpolation, matching by `id`:
    /// one index triple (into `last.cars`, `current.cars`, `next.cars`) for
    /// each current car whose id is present on both sides, in order of the
    /// current list, picking the first match on each side. A car absent from
    /// either side has no interpolation target and is skipped, never
    /// defaulted.
    pub fn iter_current_cars(&self) -> (r: Vec<(usize, usize, usize)>)
        ensures
            forall|t: int|
                0 <= t < r@.len() ==> {
                    &&& (#[trigger] r@[t]).0 < self@.last.cars.len()
                    &&& r@[t].1 < self@.current.cars.len()
                    &&& r@[t].2 < self@.next.cars.len()
                    &&& self@.last.cars[r@[t].0 as int].id == self@.current.cars[r@[t].1 as int].id
                    &&& self@.next.cars[r@[t].2 as int].id == self@.current.cars[r@[t].1 as int].id
                    &&& (forall|l: int|
                        0 <= l < r@[t].0 ==> (#[trigger] self@.last.cars[l]).id
                            != self@.current.cars[r@[t].1 as int].id)
                    &&& (forall|l: int|
                        0 <= l < r@[t].2 ==> (#[trigger] self@.next.cars[l]).id
                            != self@.current.cars[r@[t].1 as int].id)
                },
            forall|t1: int, t2: int|
                0 <= t1 < t2 < r@.len() ==> (#[trigger] r@[t1]).1 < (#[trigger] r@[t2]).1,
            forall|j: int|
                0 <= j < self@.current.cars.len() && spec_has_car(
                    self@.last.cars,
                    (#[trigger] self@.current.cars[j]).id,
                ) && spec_has_car(self@.next.cars, self@.current.cars[j].id) ==> exists|t: int|
                    0 <= t < r@.len() && (#[trigger] r@[t]).1 == j,
    {
        let mut r: Vec<(usize, usize, usize)> = Vec::new();
        let mut j: usize = 0;
        while j < self.current.cars.len()
            invariant
                j <= self.current.cars@.len(),
                forall|t: int|
                    0 <= t < r@.len() ==> {
                        &&& (#[trigger] r@[t]).0 < self@.last.cars.len()
                        &&& r@[t].1 < j
                        &&& r@[t].2 < self@.next.cars.len()
                        &&& self@.last.cars[r@[t].0 as int].id == self@.current.cars[r@[t].1 as int].id
                        &&& self@.next.cars[r@[t].2 as int].id == self@.current.cars[r@[t].1 as int].id
                        &&& (forall|l: int|
                            0 <= l < r@[t].0 ==> (#[trigger] self@.last.cars[l]).id
                                != self@.current.cars[r@[t].1 as int].id)
                        &&& (forall|l: int|
                            0 <= l < r@[t].2 ==> (#[trigger] self@.next.cars[l]).id
                                != self@.current.cars[r@[t].1 as int].id)
                    },
                forall|t1: int, t2: int|
                    0 <= t1 < t2 < r@.len() ==> (#[trigger] r@[t1]).1 < (#[trigger] r@[t2]).1,
                forall|j2: int|
                    0 <= j2 < j && spec_has_car(
                        self@.last.cars,
                        (#[trigger] self@.current.cars[j2]).id,
                    ) && spec_has_car(self@.next.cars, self@.current.cars[j2].id) ==> exists|t: int|
                        0 <= t < r@.len() && (#[trigger] r@[t]).1 == j2,
            decreases self.current.cars@.len() - j,
        {
            let id = self.current.cars[j].id;
            let in_last = crate::game::find_car_index(&self.last.cars, id);
            let in_next = crate::game::find_car_index(&self.next.cars, id);
            match (in_last, in_next) {
                (Some(i), Some(k)) => {
                    let ghost prev = r@;
                    r.push((i, j, k));
                    j = j + 1;
                    proof {
                        assert forall|j2: int|
                            0 <= j2 < j && spec_has_car(
                                self@.last.cars,
                                (#[trigger] self@.current.cars[j2]).id,
                            ) && spec_has_car(self@.next.cars, self@.current.cars[j2].id) implies exists|
                            t: int,
                        |
                            0 <= t < r@.len() && (#[trigger] r@[t]).1 == j2 by {
                            if j2 == j - 1 {
                                assert(r@[r@.len() - 1].1 == j2);
                            } else {
                                let t = choose|t: int|
                                    0 <= t < prev.len() && (#[trigger] prev[t]).1 == j2;
                                assert(r@[t] == prev[t]);
                                assert(0 <= t < r@.len() && r@[t].1 == j2);
                            }
                        }
                    }
                },
                _ => {
                    j = j + 1;
                    proof {
                        assert(!(spec_has_car(self@.last.cars, id) && spec_has_car(
                            self@.next.cars,
                            id,
                        )));
                        assert forall|j2: int|
                            0 <= j2 < j && spec_has_car(
                                self@.last.cars,
                                (#[trigger] self@.current.cars[j2]).id,
                            ) && spec_has_car(self@.next.cars, self@.current.cars[j2].id) implies exists|
                            t: int,
                        |
                            0 <= t < r@.len() && (#[trigger] r@[t]).1 == j2 by {
                            assert(j2 != j - 1);
                        }
                    }
                },
            }
        }
        r
    }
}

/// Interpolate bracket: installing an accepted, non-bootstrap snapshot under
/// `Interpolate` leaves the bracket ordered by tick, with `current` equal to
/// its lower end — so a freshly installed bracket shows exactly the `last`
/// snapshot (the ball position included), and blending can only move it
/// towards `next`.
pub proof fn lemma_interpolate_bracket(
    pre: GameStatesView,
    new_state: GameStateView,
    calc_ball_rot: bool,
)
    requires
        spec_accepts_tick(new_state.tick_count, pre.next.tick_count),
        new_state.tick_count > 1,
    ensures
        ({
            let post = spec_advance(pre, PacketSmoothing::Interpolate, new_state, calc_ball_rot);
            &&& post.last.tick_count <= post.next.tick_count
            &&& post.current == post.last
            &&& post.current.ball == post.last.ball
        }),
{
}

} // verus!
