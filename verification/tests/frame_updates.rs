use rlviser::buffer::{GameStates, PacketSmoothing};
use rlviser::events::{apply_udp_updates, UdpUpdate};
use rlviser::game::GameState;
use rlviser::math::{Color, Vec3};
use rlviser::render::{RenderGroups, RenderMessage, RenderPrimitive};

fn state_with_tick(tick: u64) -> GameState {
    let mut s = GameState::empty();
    s.tick_count = tick;
    s
}

fn prim(x: f32) -> RenderPrimitive {
    RenderPrimitive {
        start: Vec3 { x: x.to_bits(), y: 0, z: 0 },
        end: Vec3 { x: 0, y: x.to_bits(), z: 0 },
        color: Color { r: 255, g: 0, b: 0, a: 255 },
    }
}

#[test]
fn snapshots_in_one_frame_collapse_to_the_last() {
    let updates = vec![
        UdpUpdate::State(state_with_tick(5)),
        UdpUpdate::State(state_with_tick(6)),
        UdpUpdate::State(state_with_tick(7)),
    ];
    let mut groups = RenderGroups::new_empty();
    let mut states = GameStates::new_session();
    let outcome =
        apply_udp_updates(&updates, &mut groups, &mut states, PacketSmoothing::Snap, false);
    assert!(!outcome.quit);
    assert!(outcome.packet_updated);
    // Only the most recent snapshot participates in advance.
    assert_eq!(states.next.tick_count, 7);
    assert_eq!(states.current.tick_count, 7);
    assert_eq!(states.last.tick_count, 0);
}

#[test]
fn a_quit_event_is_terminal() {
    let updates = vec![
        UdpUpdate::Speed(2.0f32.to_bits()),
        UdpUpdate::Exit,
        UdpUpdate::State(state_with_tick(9)),
        UdpUpdate::Paused(true),
    ];
    let mut groups = RenderGroups::new_empty();
    let mut states = GameStates::new_session();
    let outcome =
        apply_udp_updates(&updates, &mut groups, &mut states, PacketSmoothing::Snap, false);
    assert!(outcome.quit);
    // Updates before the quit were delivered; those after were not, and no
    // snapshot is installed on a quitting frame.
    assert_eq!(outcome.speed_updates, vec![2.0f32.to_bits()]);
    assert!(outcome.paused_updates.is_empty());
    assert!(!outcome.packet_updated);
    assert_eq!(states.next.tick_count, 0);
}

#[test]
fn render_groups_follow_insert_and_remove_in_order() {
    let updates = vec![
        UdpUpdate::Render(RenderMessage::AddRender(1, vec![prim(1.0)])),
        UdpUpdate::Render(RenderMessage::AddRender(2, vec![prim(2.0), prim(3.0)])),
        UdpUpdate::Render(RenderMessage::AddRender(1, vec![prim(4.0)])),
        UdpUpdate::Render(RenderMessage::RemoveRender(2)),
    ];
    let mut groups = RenderGroups::new_empty();
    let mut states = GameStates::new_session();
    let outcome =
        apply_udp_updates(&updates, &mut groups, &mut states, PacketSmoothing::Snap, false);
    assert!(!outcome.quit);
    assert!(!outcome.packet_updated);
    // Group 1 was replaced by its second message; group 2 was removed.
    let group1 = groups.get(1).expect("group 1 is installed");
    assert_eq!(group1.len(), 1);
    assert_eq!(group1[0], prim(4.0));
    assert!(groups.get(2).is_none());
}

#[test]
fn forwarded_updates_keep_arrival_order() {
    let updates = vec![
        UdpUpdate::Speed(1.0f32.to_bits()),
        UdpUpdate::Paused(true),
        UdpUpdate::Connection,
        UdpUpdate::Speed(3.0f32.to_bits()),
        UdpUpdate::Paused(false),
        UdpUpdate::Connection,
    ];
    let mut groups = RenderGroups::new_empty();
    let mut states = GameStates::new_session();
    let outcome =
        apply_udp_updates(&updates, &mut groups, &mut states, PacketSmoothing::Snap, false);
    assert_eq!(outcome.speed_updates, vec![1.0f32.to_bits(), 3.0f32.to_bits()]);
    assert_eq!(outcome.paused_updates, vec![true, false]);
    assert_eq!(outcome.connection_acks, 2);
}
