use rlviser::codec::{get_num_bytes, header_counts_ok, read_tick_count};
use rlviser::game::{
    BallState, BoostPadState, CarConfig, CarControls, CarInfo, CarState, GameMode, GameState,
    Team, WheelPairConfig, WheelsWithContact,
};
use rlviser::math::{Color, RotMat, Vec3};
use rlviser::render::{render_get_num_bytes, render_header_ok, RenderMessage, RenderPrimitive};

fn vec3(x: f32, y: f32, z: f32) -> Vec3 {
    Vec3 { x: x.to_bits(), y: y.to_bits(), z: z.to_bits() }
}

fn rot_identity() -> RotMat {
    RotMat {
        forward: vec3(1.0, 0.0, 0.0),
        right: vec3(0.0, 1.0, 0.0),
        up: vec3(0.0, 0.0, 1.0),
    }
}

fn sample_car(id: u32, team: Team, x: f32) -> CarInfo {
    CarInfo {
        id,
        team,
        config: CarConfig {
            hitbox_size: vec3(118.0, 84.2, 36.2),
            front_wheels: WheelPairConfig {
                wheel_radius: 12.5f32.to_bits(),
                suspension_rest_length: 38.8f32.to_bits(),
                connection_point_offset: vec3(51.3, 31.1, 20.8),
            },
            back_wheels: WheelPairConfig {
                wheel_radius: 15.0f32.to_bits(),
                suspension_rest_length: 37.0f32.to_bits(),
                connection_point_offset: vec3(-33.8, 29.5, 20.8),
            },
        },
        state: CarState {
            pos: vec3(x, -2500.0, 17.0),
            vel: vec3(500.0, 0.5, -1.25),
            ang_vel: vec3(0.0, 0.1, 5.5),
            rot_mat: rot_identity(),
            boost: 33.5f32.to_bits(),
            is_demoed: false,
            is_on_ground: true,
            wheels_with_contact: WheelsWithContact {
                front_left: true,
                front_right: true,
                back_left: false,
                back_right: true,
            },
            last_controls: CarControls {
                throttle: 1.0f32.to_bits(),
                steer: (-0.5f32).to_bits(),
                pitch: 0.0f32.to_bits(),
                yaw: 0.25f32.to_bits(),
                roll: 0.0f32.to_bits(),
                boost: true,
                jump: false,
                handbrake: false,
            },
        },
    }
}

fn sample_pad(x: f32, is_big: bool, is_active: bool) -> BoostPadState {
    BoostPadState { position: vec3(x, 2300.0, 73.0), is_big, is_active }
}

fn sample_state(tick_count: u64, cars: Vec<CarInfo>, pads: Vec<BoostPadState>) -> GameState {
    GameState {
        tick_count,
        tick_rate: 120.0f32.to_bits(),
        game_mode: GameMode::Soccar,
        ball: BallState {
            pos: vec3(0.0, 0.0, 93.15),
            vel: vec3(10.0, -20.0, 0.0),
            ang_vel: vec3(0.0, 0.0, 1.0),
            rot_mat: rot_identity(),
        },
        cars,
        pads,
    }
}

#[test]
fn round_trip_empty_lists() {
    let s = sample_state(42, Vec::new(), Vec::new());
    let bytes = s.to_bytes();
    assert_eq!(bytes.len(), 93);
    let decoded = GameState::from_bytes(&bytes).expect("a fresh encoding decodes");
    assert_eq!(decoded, s);
}

#[test]
fn round_trip_cars_and_pads() {
    let cars = vec![
        sample_car(3, Team::Blue, -1000.0),
        sample_car(7, Team::Orange, 1000.0),
    ];
    let pads = vec![
        sample_pad(-3072.0, true, true),
        sample_pad(0.0, false, false),
        sample_pad(3072.0, true, false),
    ];
    let s = sample_state(100, cars, pads);
    let bytes = s.to_bytes();
    assert_eq!(bytes.len(), 93 + 2 * 162 + 3 * 14);
    let decoded = GameState::from_bytes(&bytes).expect("a fresh encoding decodes");
    assert_eq!(decoded, s);
    assert_eq!(decoded.cars[1].id, 7);
    assert_eq!(decoded.cars[1].team, Team::Orange);
    assert_eq!(decoded.cars[0].state.boost, 33.5f32.to_bits());
    assert!(decoded.pads[0].is_big && decoded.pads[0].is_active);
    assert!(!decoded.pads[1].is_big && !decoded.pads[1].is_active);
}

#[test]
fn round_trip_maximum_counts() {
    let mut cars = Vec::new();
    for i in 0..64u32 {
        cars.push(sample_car(i + 1, if i % 2 == 0 { Team::Blue } else { Team::Orange }, i as f32));
    }
    let mut pads = Vec::new();
    for i in 0..1024u32 {
        pads.push(sample_pad(i as f32, i % 5 == 0, i % 2 == 0));
    }
    let s = sample_state(9999, cars, pads);
    let bytes = s.to_bytes();
    let decoded = GameState::from_bytes(&bytes).expect("a maximal encoding decodes");
    assert_eq!(decoded, s);
}

#[test]
fn header_layout_is_fixed_little_endian() {
    let s = sample_state(0x0102030405060708, vec![sample_car(1, Team::Blue, 0.0)], vec![
        sample_pad(1.0, true, true),
        sample_pad(2.0, false, true),
    ]);
    let bytes = s.to_bytes();
    assert_eq!(&bytes[0..8], &[8, 7, 6, 5, 4, 3, 2, 1]);
    assert_eq!(&bytes[8..12], &120.0f32.to_le_bytes());
    assert_eq!(bytes[12], 0);
    assert_eq!(&bytes[13..17], &[1, 0, 0, 0]);
    assert_eq!(&bytes[17..21], &[2, 0, 0, 0]);
}

#[test]
fn two_phase_sizing_matches_encoding() {
    let s = sample_state(77, vec![sample_car(4, Team::Orange, 5.0)], vec![sample_pad(
        9.0, false, true,
    )]);
    let bytes = s.to_bytes();
    assert_eq!(read_tick_count(&bytes), 77);
    assert!(header_counts_ok(&bytes));
    assert_eq!(get_num_bytes(&bytes), bytes.len());
}

#[test]
fn decode_rejects_malformed_input() {
    let s = sample_state(5, vec![sample_car(1, Team::Blue, 0.0)], Vec::new());
    let bytes = s.to_bytes();

    // Truncations at several depths never decode.
    assert!(GameState::from_bytes(&bytes[..4]).is_none());
    assert!(GameState::from_bytes(&bytes[..20]).is_none());
    assert!(GameState::from_bytes(&bytes[..92]).is_none());
    assert!(GameState::from_bytes(&bytes[..bytes.len() - 1]).is_none());

    // A trailing byte is not consumed, so the datagram is malformed.
    let mut longer = bytes.clone();
    longer.push(0);
    assert!(GameState::from_bytes(&longer).is_none());

    // An unknown game mode byte is fatal.
    let mut bad_mode = bytes.clone();
    bad_mode[12] = 9;
    assert!(GameState::from_bytes(&bad_mode).is_none());

    // An unknown team byte is fatal; the team sits right after the car id.
    let mut bad_team = bytes.clone();
    bad_team[93 + 4] = 2;
    assert!(GameState::from_bytes(&bad_team).is_none());

    // A flag byte other than 0 or 1 is fatal; is_demoed sits 133 bytes into
    // the car's 162-byte record.
    let mut bad_bool = bytes.clone();
    bad_bool[93 + 133] = 2;
    assert!(GameState::from_bytes(&bad_bool).is_none());

    // A header naming more cars than supported is rejected without a read.
    let mut too_many = bytes.clone();
    too_many[13] = 65;
    assert!(!header_counts_ok(&too_many));
    assert!(GameState::from_bytes(&too_many).is_none());
}

#[test]
fn every_game_mode_round_trips() {
    let modes = [
        (GameMode::Soccar, 0u8),
        (GameMode::Hoops, 1),
        (GameMode::Heatseeker, 2),
        (GameMode::Snowday, 3),
        (GameMode::TheVoid, 4),
    ];
    for (mode, byte) in modes {
        let mut s = sample_state(1, Vec::new(), Vec::new());
        s.game_mode = mode;
        let bytes = s.to_bytes();
        assert_eq!(bytes[12], byte);
        assert_eq!(GameState::from_bytes(&bytes).unwrap().game_mode, mode);
    }
}

#[test]
fn render_two_phase_sizing_matches_encoding() {
    let add = RenderMessage::AddRender(3, vec![
        RenderPrimitive {
            start: vec3(0.0, 0.0, 0.0),
            end: vec3(1.0, 1.0, 1.0),
            color: Color { r: 1, g: 2, b: 3, a: 4 },
        },
    ]);
    let bytes = add.to_bytes();
    assert!(render_header_ok(&bytes[..9]));
    assert_eq!(render_get_num_bytes(&bytes[..9]), bytes.len());

    // A remove message is shorter than the peek buffer; the peeked prefix is
    // padded, and sizing still answers from the kind byte alone.
    let remove_bytes = RenderMessage::RemoveRender(3).to_bytes();
    let mut padded = [0u8; 9];
    padded[..remove_bytes.len()].copy_from_slice(&remove_bytes);
    assert!(render_header_ok(&padded));
    assert_eq!(render_get_num_bytes(&padded), 5);

    // A header naming too many primitives is rejected before any read.
    let mut bad = [0u8; 9];
    bad[0] = 0;
    bad[5..9].copy_from_slice(&1025u32.to_le_bytes());
    assert!(!render_header_ok(&bad));
}

#[test]
fn render_message_round_trips() {
    let prims = vec![
        RenderPrimitive {
            start: vec3(0.0, 0.0, 0.0),
            end: vec3(1.0, 2.0, 3.0),
            color: Color { r: 255, g: 128, b: 0, a: 255 },
        },
        RenderPrimitive {
            start: vec3(-5.0, 0.5, 2.0),
            end: vec3(0.0, -1.0, 9.0),
            color: Color { r: 0, g: 255, b: 0, a: 64 },
        },
    ];
    let add = RenderMessage::AddRender(17, prims);
    let bytes = add.to_bytes();
    assert_eq!(bytes.len(), 9 + 2 * 28);
    assert_eq!(bytes[0], 0);
    match RenderMessage::from_bytes(&bytes) {
        Some(RenderMessage::AddRender(id, decoded)) => {
            assert_eq!(id, 17);
            assert_eq!(decoded.len(), 2);
            assert_eq!(decoded[0].color.r, 255);
            assert_eq!(decoded[1].start, vec3(-5.0, 0.5, 2.0));
        }
        _ => panic!("an add-group encoding decodes to itself"),
    }

    let remove = RenderMessage::RemoveRender(17);
    let bytes = remove.to_bytes();
    assert_eq!(bytes, vec![1, 17, 0, 0, 0]);
    match RenderMessage::from_bytes(&bytes) {
        Some(RenderMessage::RemoveRender(id)) => assert_eq!(id, 17),
        _ => panic!("a remove-group encoding decodes to itself"),
    }

    // An unknown kind byte is fatal.
    assert!(RenderMessage::from_bytes(&[2, 0, 0, 0, 0]).is_none());
    // Truncated messages are fatal.
    assert!(RenderMessage::from_bytes(&[]).is_none());
    assert!(RenderMessage::from_bytes(&[1, 0]).is_none());
}
