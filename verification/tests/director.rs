use rlviser::camera::{choose_director_target, update_camera_target, PrimaryCamera};
use rlviser::game::CarInfo;
use rlviser::math::Vec3;

fn vec3(x: f32, y: f32, z: f32) -> Vec3 {
    Vec3 { x: x.to_bits(), y: y.to_bits(), z: z.to_bits() }
}

fn car_at(id: u32, x: f32) -> CarInfo {
    let mut car = sample_car();
    car.id = id;
    car.state.pos = vec3(x, 0.0, 17.0);
    car
}

fn sample_car() -> CarInfo {
    CarInfo {
        id: 0,
        team: rlviser::game::Team::Blue,
        config: rlviser::game::CarConfig {
            hitbox_size: vec3(118.0, 84.2, 36.2),
            front_wheels: rlviser::game::WheelPairConfig {
                wheel_radius: 12.5f32.to_bits(),
                suspension_rest_length: 38.8f32.to_bits(),
                connection_point_offset: vec3(51.3, 31.1, 20.8),
            },
            back_wheels: rlviser::game::WheelPairConfig {
                wheel_radius: 15.0f32.to_bits(),
                suspension_rest_length: 37.0f32.to_bits(),
                connection_point_offset: vec3(-33.8, 29.5, 20.8),
            },
        },
        state: rlviser::game::CarState {
            pos: vec3(0.0, 0.0, 17.0),
            vel: vec3(0.0, 0.0, 0.0),
            ang_vel: vec3(0.0, 0.0, 0.0),
            rot_mat: rlviser::math::RotMat {
                forward: vec3(1.0, 0.0, 0.0),
                right: vec3(0.0, 1.0, 0.0),
                up: vec3(0.0, 0.0, 1.0),
            },
            boost: 0,
            is_demoed: false,
            is_on_ground: true,
            wheels_with_contact: rlviser::game::WheelsWithContact {
                front_left: true,
                front_right: true,
                back_left: true,
                back_right: true,
            },
            last_controls: rlviser::game::CarControls {
                throttle: 0,
                steer: 0,
                pitch: 0,
                yaw: 0,
                roll: 0,
                boost: false,
                jump: false,
                handbrake: false,
            },
        },
    }
}

/// Squared distance to the ball as the comparison key the camera uses.
fn dist_key(d: f32) -> u32 {
    (d * d).to_bits()
}

#[test]
fn director_elects_the_car_nearest_the_ball() {
    // Two cars at distances 100 and 50 from the ball: the director with no
    // target yet picks the one at 50.
    let cars = vec![car_at(1, 100.0), car_at(2, 50.0)];
    let keys = vec![dist_key(100.0), dist_key(50.0)];
    let mut camera = PrimaryCamera::Director(0);
    let target = update_camera_target(&mut camera, false, &cars, &keys);
    assert_eq!(camera, PrimaryCamera::Director(2));
    assert_eq!(target, Some(2));
}

#[test]
fn director_keeps_its_car_until_the_timer_elapses() {
    let cars = vec![car_at(1, 100.0), car_at(2, 50.0)];
    let keys = vec![dist_key(100.0), dist_key(50.0)];
    let mut camera = PrimaryCamera::Director(1);
    let target = update_camera_target(&mut camera, false, &cars, &keys);
    assert_eq!(camera, PrimaryCamera::Director(1));
    assert_eq!(target, Some(1));

    // When the repeating timer elapses, it re-elects the nearest car.
    let target = update_camera_target(&mut camera, true, &cars, &keys);
    assert_eq!(camera, PrimaryCamera::Director(2));
    assert_eq!(target, Some(2));
}

#[test]
fn director_with_no_cars_keeps_its_previous_id() {
    let cars = Vec::new();
    let keys = Vec::new();
    assert_eq!(choose_director_target(&cars, &keys, 6), 6);
    let mut camera = PrimaryCamera::Director(6);
    let target = update_camera_target(&mut camera, true, &cars, &keys);
    assert_eq!(camera, PrimaryCamera::Director(6));
    assert_eq!(target, None);
}

#[test]
fn equal_distances_resolve_to_the_first_car() {
    let cars = vec![car_at(8, 10.0), car_at(9, 10.0), car_at(10, 30.0)];
    let keys = vec![dist_key(10.0), dist_key(10.0), dist_key(30.0)];
    assert_eq!(choose_director_target(&cars, &keys, 0), 8);
}

#[test]
fn tracked_car_is_skipped_while_absent() {
    let cars = vec![car_at(1, 100.0)];
    let keys = vec![dist_key(100.0)];
    let mut camera = PrimaryCamera::TrackCar(9);
    let target = update_camera_target(&mut camera, false, &cars, &keys);
    assert_eq!(camera, PrimaryCamera::TrackCar(9));
    assert_eq!(target, None);

    let mut camera = PrimaryCamera::TrackCar(1);
    let target = update_camera_target(&mut camera, false, &cars, &keys);
    assert_eq!(target, Some(1));
}

#[test]
fn spectator_tracks_nothing() {
    let cars = vec![car_at(1, 100.0)];
    let keys = vec![dist_key(100.0)];
    let mut camera = PrimaryCamera::Spectator;
    let target = update_camera_target(&mut camera, true, &cars, &keys);
    assert_eq!(camera, PrimaryCamera::Spectator);
    assert_eq!(target, None);
}
