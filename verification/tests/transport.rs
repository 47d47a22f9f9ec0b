use rlviser::buffer::{GameStates, PacketSmoothing};
use rlviser::codec::read_tick_count;
use rlviser::game::{GameMode, GameState};
use rlviser::packet::{accepts_tick, decode_paused, decode_speed, SendableUdp, UdpPacketTypes};

#[test]
fn packet_type_dispatch_is_total_on_known_bytes() {
    assert!(matches!(UdpPacketTypes::new(0), Some(UdpPacketTypes::Quit)));
    assert!(matches!(UdpPacketTypes::new(1), Some(UdpPacketTypes::GameState)));
    assert!(matches!(UdpPacketTypes::new(2), Some(UdpPacketTypes::Connection)));
    assert!(matches!(UdpPacketTypes::new(3), Some(UdpPacketTypes::Paused)));
    assert!(matches!(UdpPacketTypes::new(4), Some(UdpPacketTypes::Speed)));
    assert!(matches!(UdpPacketTypes::new(5), Some(UdpPacketTypes::Render)));
    for b in 6..=255u8 {
        assert!(UdpPacketTypes::new(b).is_none());
    }
    for b in 0..=5u8 {
        assert_eq!(UdpPacketTypes::new(b).unwrap().to_byte(), b);
    }
}

#[test]
fn stale_ticks_are_rejected_and_fresh_ones_accepted() {
    // A duplicate of the last accepted tick is stale.
    assert!(!accepts_tick(100, 100));
    // Anything older is stale.
    assert!(!accepts_tick(99, 100));
    assert!(!accepts_tick(2, 100));
    // Strictly newer ticks pass.
    assert!(accepts_tick(101, 100));
    assert!(accepts_tick(3, 2));
    // Bootstrap ticks always pass: a restarted server may begin again.
    assert!(accepts_tick(0, 100));
    assert!(accepts_tick(1, 100));
    assert!(accepts_tick(1, 1));
    assert!(accepts_tick(0, 0));
}

#[test]
fn speed_and_paused_payloads_decode() {
    let bytes = 1.5f32.to_le_bytes();
    assert_eq!(decode_speed(&bytes), 1.5f32.to_bits());
    assert_eq!(f32::from_bits(decode_speed(&bytes)), 1.5f32);
    assert!(!decode_paused(0));
    assert!(decode_paused(1));
    assert!(decode_paused(7));
}

#[test]
fn outbound_commands_frame_with_their_discriminant() {
    let (ty, payload) = SendableUdp::Paused(true).to_frame();
    assert_eq!(ty, 3);
    assert_eq!(payload, vec![1]);

    let (ty, payload) = SendableUdp::Paused(false).to_frame();
    assert_eq!(ty, 3);
    assert_eq!(payload, vec![0]);

    let (ty, payload) = SendableUdp::Speed(2.0f32.to_bits()).to_frame();
    assert_eq!(ty, 4);
    assert_eq!(payload, 2.0f32.to_le_bytes().to_vec());

    let mut state = GameState::empty();
    state.tick_count = 11;
    state.game_mode = GameMode::Hoops;
    let expected = state.to_bytes();
    let (ty, payload) = SendableUdp::State(state).to_frame();
    assert_eq!(ty, 1);
    assert_eq!(payload, expected);
}

#[test]
fn end_to_end_receive_filter_and_advance() {
    // The receiver decodes a snapshot with tick 100 and the buffer advances.
    let mut fresh = GameState::empty();
    fresh.tick_count = 100;
    let datagram = fresh.to_bytes();

    let mut states = GameStates::new_session();
    let mut last_accepted: u64 = 0;

    let peeked = read_tick_count(&datagram);
    assert_eq!(peeked, 100);
    assert!(accepts_tick(peeked, last_accepted));
    let decoded = GameState::from_bytes(&datagram).unwrap();
    last_accepted = decoded.tick_count;
    states.advance(PacketSmoothing::Interpolate, decoded, false);
    assert_eq!(states.next.tick_count, 100);

    // A duplicate with tick 100 arrives: discarded before decoding, the
    // buffer unchanged.
    let duplicate = fresh.duplicate().to_bytes();
    assert!(!accepts_tick(read_tick_count(&duplicate), last_accepted));
    assert_eq!(states.last.tick_count, 0);
    assert_eq!(states.current.tick_count, 0);
    assert_eq!(states.next.tick_count, 100);

    // Tick 101 arrives: accepted, and the buffers shift per the policy.
    let mut newer = GameState::empty();
    newer.tick_count = 101;
    let datagram = newer.to_bytes();
    assert!(accepts_tick(read_tick_count(&datagram), last_accepted));
    let decoded = GameState::from_bytes(&datagram).unwrap();
    states.advance(PacketSmoothing::Interpolate, decoded, false);
    assert_eq!(states.last.tick_count, 100);
    assert_eq!(states.current.tick_count, 100);
    assert_eq!(states.next.tick_count, 101);
}
