use rlviser::buffer::{GameStates, PacketSmoothing};
use rlviser::game::{CarInfo, GameState};
use rlviser::math::{RotMat, Vec3};

fn vec3(x: f32, y: f32, z: f32) -> Vec3 {
    Vec3 { x: x.to_bits(), y: y.to_bits(), z: z.to_bits() }
}

fn state_with_tick(tick: u64) -> GameState {
    let mut s = GameState::empty();
    s.tick_count = tick;
    s
}

fn car_at(id: u32, x: f32) -> CarInfo {
    let base = sample_base_car();
    CarInfo { id, state: rlviser::game::CarState { pos: vec3(x, 0.0, 17.0), ..base.state }, ..base }
}

fn sample_base_car() -> CarInfo {
    CarInfo {
        id: 0,
        team: rlviser::game::Team::Blue,
        config: rlviser::game::CarConfig {
            hitbox_size: vec3(118.0, 84.2, 36.2),
            front_wheels: rlviser::game::WheelPairConfig {
                wheel_radius: 12.5f32.to_bits(),
                suspension_rest_length: 38.8f32.to_bits(),
                connection_point_offset: vec3(51.3, 31.1, 20.8),
            },
            back_wheels: rlviser::game::WheelPairConfig {
                wheel_radius: 15.0f32.to_bits(),
                suspension_rest_length: 37.0f32.to_bits(),
                connection_point_offset: vec3(-33.8, 29.5, 20.8),
            },
        },
        state: rlviser::game::CarState {
            pos: vec3(0.0, 0.0, 17.0),
            vel: vec3(0.0, 0.0, 0.0),
            ang_vel: vec3(0.0, 0.0, 0.0),
            rot_mat: RotMat {
                forward: vec3(1.0, 0.0, 0.0),
                right: vec3(0.0, 1.0, 0.0),
                up: vec3(0.0, 0.0, 1.0),
            },
            boost: 0,
            is_demoed: false,
            is_on_ground: true,
            wheels_with_contact: rlviser::game::WheelsWithContact {
                front_left: true,
                front_right: true,
                back_left: true,
                back_right: true,
            },
            last_controls: rlviser::game::CarControls {
                throttle: 0,
                steer: 0,
                pitch: 0,
                yaw: 0,
                roll: 0,
                boost: false,
                jump: false,
                handbrake: false,
            },
        },
    }
}

#[test]
fn advance_snap_shifts_and_snaps() {
    let mut states = GameStates::new_session();
    states.advance(PacketSmoothing::Snap, state_with_tick(10), false);
    assert_eq!(states.last.tick_count, 0);
    assert_eq!(states.current.tick_count, 10);
    assert_eq!(states.next.tick_count, 10);

    states.advance(PacketSmoothing::Snap, state_with_tick(20), false);
    assert_eq!(states.last.tick_count, 10);
    assert_eq!(states.current.tick_count, 20);
    assert_eq!(states.next.tick_count, 20);
}

#[test]
fn advance_carries_rendered_ball_rotation_forward() {
    let mut states = GameStates::new_session();
    // The presentation has rotated the ball away from identity.
    let rendered = RotMat {
        forward: vec3(0.0, 1.0, 0.0),
        right: vec3(-1.0, 0.0, 0.0),
        up: vec3(0.0, 0.0, 1.0),
    };
    states.current.ball.rot_mat = rendered;

    let mut incoming = state_with_tick(30);
    incoming.ball.rot_mat = RotMat {
        forward: vec3(1.0, 0.0, 0.0),
        right: vec3(0.0, 1.0, 0.0),
        up: vec3(0.0, 0.0, 1.0),
    };
    states.advance(PacketSmoothing::Extrapolate, incoming, true);

    // The installed snapshot keeps the rendered orientation, not its own.
    assert_eq!(states.next.ball.rot_mat, rendered);
    assert_eq!(states.current.ball.rot_mat, rendered);
}

#[test]
fn advance_interpolate_keeps_current_behind_next() {
    let mut states = GameStates::new_session();
    states.advance(PacketSmoothing::Interpolate, state_with_tick(10), false);
    states.advance(PacketSmoothing::Interpolate, state_with_tick(20), false);
    // current sits on the lower end of the bracket, never on the new data.
    assert_eq!(states.last.tick_count, 10);
    assert_eq!(states.current.tick_count, 10);
    assert_eq!(states.next.tick_count, 20);
    assert_eq!(states.current.ball.pos, states.last.ball.pos);
}

#[test]
fn interpolation_pairs_cars_by_id_and_skips_absent() {
    let mut states = GameStates::new_session();
    // last knows cars 1 and 2; next knows 2 and 3; current shows 1, 2, 3.
    states.last.cars = vec![car_at(1, -100.0), car_at(2, 0.0)];
    states.next.cars = vec![car_at(3, 300.0), car_at(2, 50.0)];
    states.current.cars = vec![car_at(1, -100.0), car_at(2, 0.0), car_at(3, 300.0)];

    let pairs = states.iter_current_cars();
    // Only car 2 exists on both sides of the bracket.
    assert_eq!(pairs, vec![(1, 1, 1)]);
}

#[test]
fn interpolation_pairs_preserve_current_order() {
    let mut states = GameStates::new_session();
    states.last.cars = vec![car_at(5, 0.0), car_at(4, 1.0)];
    states.next.cars = vec![car_at(4, 2.0), car_at(5, 3.0)];
    states.current.cars = vec![car_at(4, 4.0), car_at(5, 5.0)];

    let pairs = states.iter_current_cars();
    assert_eq!(pairs, vec![(1, 0, 0), (0, 1, 1)]);
}
