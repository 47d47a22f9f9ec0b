//! Per-frame event draining: the main loop empties the inbound channel,
//! applies render-group changes in arrival order, collapses snapshot events
//! to the most recent one, forwards speed and pause updates, counts peer
//! announcements, and stops at a quit event.

use vstd::prelude::*;

use crate::buffer::{spec_advance, GameStates, PacketSmoothing};
use crate::game::{GameState, GameStateView};
use crate::render::{RenderGroups, RenderMessage, RenderMessageView, RenderPrimitive};

verus! {

/// One decoded inbound event, in the order the receiver decoded it.
pub enum UdpUpdate {
    State(GameState),
    Render(RenderMessage),
    Speed(u32),
    Paused(bool),
    Connection,
    Exit,
}

/// The mathematical value of an inbound event.
#[verifier::ext_equal]
pub ghost enum UdpUpdateView {
    State(GameStateView),
    Render(RenderMessageView),
    Speed(u32),
    Paused(bool),
    Connection,
    Exit,
}

impl View for UdpUpdate {
    type V = UdpUpdateView;

    open spec fn view(&self) -> UdpUpdateView {
        match self {
            UdpUpdate::State(g) => UdpUpdateView::State(g@),
            UdpUpdate::Render(m) => UdpUpdateView::Render(m@),
            UdpUpdate::Speed(v) => UdpUpdateView::Speed(*v),
            UdpUpdate::Paused(b) => UdpUpdateView::Paused(*b),
            UdpUpdate::Connection => UdpUpdateView::Connection,
            UdpUpdate::Exit => UdpUpdateView::Exit,
        }
    }
}

/// The views of a list of inbound events.
pub open spec fn spec_updates_view(us: Seq<UdpUpdate>) -> Seq<UdpUpdateView> {
    us.map_values(|u: UdpUpdate| u@)
}

/// The outcome of draining one frame's events, as mathematical values.
#[verifier::ext_equal]
pub ghost struct DrainOutcomeView {
    pub quit: bool,
    pub new_state: Option<GameStateView>,
    pub speeds: Seq<u32>,
    pub pauses: Seq<bool>,
    pub connections: int,
    pub groups: Map<u32, Seq<RenderPrimitive>>,
}

/// What draining does: a left fold over the events in arrival order. A quit
/// event stops the fold at once — later events are not applied, and no
/// snapshot is installed that frame. Snapshot events overwrite one another,
/// so only the most recent survives; render messages edit the group store in
/// order; speed and pause updates are forwarded in order; each peer
/// announcement is counted.
pub open spec fn spec_drain(us: Seq<UdpUpdateView>, acc: DrainOutcomeView) -> DrainOutcomeView
    decreases us.len(),
{
    if us.len() == 0 {
        acc
    } else {
        match us[0] {
            UdpUpdateView::Exit => DrainOutcomeView { quit: true, new_state: None, ..acc },
            UdpUpdateView::State(g) => spec_drain(
                us.skip(1),
                DrainOutcomeView { new_state: Some(g), ..acc },
            ),
            UdpUpdateView::Render(m) => spec_drain(
                us.skip(1),
                DrainOutcomeView {
                    groups: match m {
                        RenderMessageView::AddRender(id, prims) => acc.groups.insert(id, prims),
                        RenderMessageView::RemoveRender(id) => acc.groups.remove(id),
                    },
                    ..acc
                },
            ),
            UdpUpdateView::Speed(v) => spec_drain(
                us.skip(1),
                DrainOutcomeView { speeds: acc.speeds.push(v), ..acc },
            ),
            UdpUpdateView::Paused(b) => spec_drain(
                us.skip(1),
                DrainOutcomeView { pauses: acc.pauses.push(b), ..acc },
            ),
            UdpUpdateView::Connection => spec_drain(
                us.skip(1),
                DrainOutcomeView { connections: acc.connections + 1, ..acc },
            ),
        }
    }
}

/// The fold's starting point: nothing seen, the group store as it stands.
pub open spec fn spec_drain_init(groups: Map<u32, Seq<RenderPrimitive>>) -> DrainOutcomeView {
    DrainOutcomeView {
        quit: false,
        new_state: None,
        speeds: Seq::empty(),
        pauses: Seq::empty(),
        connections: 0,
        groups,
    }
}

/// What one frame's drain asks of the rest of the system: forward these
/// updates, answer this many peer announcements, and shut down on `quit`.
pub struct DrainOutcome {
    pub quit: bool,
    pub packet_updated: bool,
    pub speed_updates: Vec<u32>,
    pub paused_updates: Vec<bool>,
    pub connection_acks: u64,
}

/// Drains one frame's inbound events: edits the render groups in order,
/// installs the most recent snapshot (if any, and if no quit arrived) into
/// the buffer under the active smoothing policy, and reports what remains
/// for the caller — updates to forward, announcements to answer, and whether
/// to shut down.
#[verifier::loop_isolation(false)]
#[verifier::spinoff_prover]
#[verifier::rlimit(100)]
pub fn apply_udp_updates(
    updates: &Vec<UdpUpdate>,
    render_groups: &mut RenderGroups,
    game_states: &mut GameStates,
    packet_smoothing: PacketSmoothing,
    calc_ball_rot: bool,
) -> (r: DrainOutcome)
    requires
        old(render_groups).wf(),
        updates@.len() < u64::MAX,
    ensures
        final(render_groups).wf(),
        ({
            let o = spec_drain(spec_updates_view(updates@), spec_drain_init(old(render_groups)@));
            &&& r.quit == o.quit
            &&& final(render_groups)@ == o.groups
            &&& r.speed_updates@ == o.speeds
            &&& r.paused_updates@ == o.pauses
            &&& r.connection_acks == o.connections
            &&& r.packet_updated == (o.new_state is Some)
            &&& final(game_states)@ == (match o.new_state {
                Some(g) => spec_advance(old(game_states)@, packet_smoothing, g, calc_ball_rot),
                None => old(game_states)@,
            })
        }),
{
    let ghost us = spec_updates_view(updates@);
    let mut new_state: Option<GameState> = None;
    let mut speed_updates: Vec<u32> = Vec::new();
    let mut paused_updates: Vec<bool> = Vec::new();
    let mut connection_acks: u64 = 0;
    let mut quit = false;
    let mut i: usize = 0;
    proof {
        assert(us.skip(0) =~= us);
    }
    while i < updates.len() && !quit
        invariant
            i <= updates@.len(),
            connection_acks <= i,
            render_groups.wf(),
            quit ==> new_state is None,
            spec_drain(us, spec_drain_init(old(render_groups)@)) == (if quit {
                DrainOutcomeView {
                    quit: true,
                    new_state: None::<GameStateView>,
                    speeds: speed_updates@,
                    pauses: paused_updates@,
                    connections: connection_acks as int,
                    groups: render_groups@,
                }
            } else {
                spec_drain(
                    us.skip(i as int),
                    DrainOutcomeView {
                        quit: false,
                        new_state: match new_state {
                            Some(g) => Some(g@),
                            None => None::<GameStateView>,
                        },
                        speeds: speed_updates@,
                        pauses: paused_updates@,
                        connections: connection_acks as int,
                        groups: render_groups@,
                    },
                )
            }),
        decreases updates@.len() - i + (if quit { 0int } else { 1int }),
    {
        proof {
            assert(us.skip(i as int)[0] == us[i as int]);
            assert(us.skip(i as int).skip(1) =~= us.skip(i + 1));
        }
        match &updates[i] {
            UdpUpdate::Exit => {
                quit = true;
                new_state = None;
            },
            UdpUpdate::State(g) => {
                new_state = Some(g.duplicate());
                i = i + 1;
            },
            UdpUpdate::Render(m) => {
                match m {
                    RenderMessage::AddRender(id, prims) => {
                        render_groups.insert(*id, crate::game::copy_vec(prims));
                    },
                    RenderMessage::RemoveRender(id) => {
                        render_groups.remove(*id);
                    },
                }
                i = i + 1;
            },
            UdpUpdate::Speed(v) => {
                speed_updates.push(*v);
                i = i + 1;
            },
            UdpUpdate::Paused(b) => {
                paused_updates.push(*b);
                i = i + 1;
            },
            UdpUpdate::Connection => {
                connection_acks = connection_acks + 1;
                i = i + 1;
            },
        }
    }
    proof {
        if !quit {
            assert(us.skip(i as int) =~= Seq::<UdpUpdateView>::empty());
        }
    }
    let packet_updated = match &new_state {
        Some(_) => true,
        None => false,
    };
    match new_state {
        Some(g) => {
            game_states.advance(packet_smoothing, g, calc_ball_rot);
        },
        None => {},
    }
    DrainOutcome { quit, packet_updated, speed_updates, paused_updates, connection_acks }
}

} // verus!
