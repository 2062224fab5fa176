//! The engine context and the per-tick driver.
//!
//! All process-wide state — the physics world, the replication channel, the
//! identity registry, the list of systems and the timing values — lives in
//! one explicit context that the tick driver owns and passes by reference.

use vstd::prelude::*;
use crate::networking::{Message, NetworkingMode, ReplicationChannel};
use crate::physics::{arena_evolves, PhysicsWorld};
use crate::systems::{IdentityRegistry, InputState, System, SystemRegistry};
use crate::transform::Vec3;
use crate::game_main;

verus! {

/// How much diagnostic output the engine shows.
#[derive(Clone, Copy, Debug, PartialEq, Eq, Structural)]
pub enum DebugMode {
    Off,
    ShowFps,
    Full,
}

/// User-facing engine settings.
#[derive(Clone, Copy, Debug, PartialEq, Eq, Structural)]
pub struct GameSettings {
    pub master_volume: u8,
    pub shadowmap_size: u32,
}

/// The process-wide engine state, owned by the tick driver.
pub struct EngineContext<S> {
    pub physics: PhysicsWorld,
    pub channel: ReplicationChannel,
    pub identity: IdentityRegistry,
    pub systems: SystemRegistry<S>,
    pub debug_mode: DebugMode,
    pub delta_time_ms: u64,
    pub listener_position: Vec3,
    pub listener_rotation: Vec3,
}

impl<S: System> EngineContext<S> {
    /// A fresh context for the given networking role.
    pub fn new(mode: NetworkingMode, connected: bool) -> (r: EngineContext<S>)
        ensures
            r.physics.wf(),
            r.physics.body_slots().len() == 0,
            r.physics.collider_slots().len() == 0,
            r.channel.mode == mode,
            r.channel.connected == connected,
            r.channel.reliable_out@ == Seq::<Message>::empty(),
            r.channel.unreliable_out@ == Seq::<Message>::empty(),
            r.identity.next_id == 1,
            r.systems.systems@ == Seq::<S>::empty(),
            r.debug_mode == DebugMode::Off,
            r.delta_time_ms == 0,
    {
        EngineContext {
            physics: PhysicsWorld::new(),
            channel: ReplicationChannel::new(mode, connected),
            identity: IdentityRegistry::new(),
            systems: SystemRegistry::new(),
            debug_mode: DebugMode::Off,
            delta_time_ms: 0,
            listener_position: Vec3 { x: 0, y: 0, z: 0 },
            listener_rotation: Vec3 { x: 0, y: 0, z: 0 },
        }
    }
}

/// The engine's current debug mode.
pub fn get_debug_mode<S>(ctx: &EngineContext<S>) -> (r: DebugMode)
    ensures
        r == ctx.debug_mode,
{
    ctx.debug_mode
}

/// The last tick's duration in milliseconds.
pub fn get_delta_time<S>(ctx: &EngineContext<S>) -> (r: u64)
    ensures
        r == ctx.delta_time_ms,
{
    ctx.delta_time_ms
}

fn set_delta_time<S>(ctx: &mut EngineContext<S>, dt: u64)
    ensures
        *final(ctx) == (EngineContext { delta_time_ms: dt, ..*old(ctx) }),
{
    ctx.delta_time_ms = dt;
}

/// The frame counter becomes a rate once a full second has elapsed.
pub fn get_fps(elapsed_millis: u64, frames: &usize) -> (r: Option<usize>)
    ensures
        r == if elapsed_millis > 1000 {
            Some(*frames)
        } else {
            None::<usize>
        },
{
    if elapsed_millis > 1000 {
        Some(*frames)
    } else {
        None
    }
}

/// How long a server tick should still wait to hold the fixed tick rate:
/// the remainder of the frame budget, or nothing when the budget is spent.
pub fn frame_wait_time(time_since_last_frame_ms: u64, frame_time_ms: u64) -> (r: Option<u64>)
    ensures
        r == if time_since_last_frame_ms < frame_time_ms {
            Some((frame_time_ms - time_since_last_frame_ms) as u64)
        } else {
            None::<u64>
        },
{
    if time_since_last_frame_ms < frame_time_ms {
        Some(frame_time_ms - time_since_last_frame_ms)
    } else {
        None
    }
}

/// Points the audio listener at the camera's position and orientation.
pub fn set_audio_listener_transformations<S>(
    ctx: &mut EngineContext<S>,
    camera_position: Vec3,
    camera_rotation: Vec3,
)
    ensures
        *final(ctx) == (EngineContext {
            listener_position: camera_position,
            listener_rotation: camera_rotation,
            ..*old(ctx)
        }),
{
    ctx.listener_position = camera_position;
    ctx.listener_rotation = camera_rotation;
}

/// One engine tick: records the tick duration, advances the physics world,
/// dispatches the inbound messages in order, handles the debug toggle, then
/// ticks every live system.  Destroyed systems stay untouched by the system
/// pass.
pub fn update_game<S: System>(
    ctx: &mut EngineContext<S>,
    delta_time_ms: u64,
    inbound: Vec<Message>,
    input: &InputState,
    debug_toggle_pressed: bool,
)
    requires
        old(ctx).physics.wf(),
    ensures
        final(ctx).physics.wf(),
        arena_evolves(old(ctx).physics, final(ctx).physics),
        final(ctx).delta_time_ms == delta_time_ms,
        final(ctx).debug_mode == game_main::spec_debug_toggled(
            old(ctx).debug_mode,
            debug_toggle_pressed,
        ),
        final(ctx).systems.systems@.len() == old(ctx).systems.systems@.len(),
        final(ctx).identity == old(ctx).identity,
        final(ctx).listener_position == old(ctx).listener_position,
        final(ctx).listener_rotation == old(ctx).listener_rotation,
{
    set_delta_time(ctx, delta_time_ms);
    crate::physics::update(&mut ctx.physics);
    ctx.systems.dispatch_all(inbound);
    game_main::update(debug_toggle_pressed, &mut ctx.debug_mode);
    ctx.systems.update(&mut ctx.physics, &mut ctx.channel, input);
}

/// The client-role draw phase: every live system's draw hooks run.
pub fn render_game<S: System>(ctx: &mut EngineContext<S>)
    ensures
        final(ctx).physics == old(ctx).physics,
        final(ctx).delta_time_ms == old(ctx).delta_time_ms,
        final(ctx).debug_mode == old(ctx).debug_mode,
        final(ctx).systems.systems@.len() == old(ctx).systems.systems@.len(),
{
    let mode = ctx.channel.mode;
    ctx.systems.render(mode);
}

} // verus!
