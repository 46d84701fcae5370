use vstd::prelude::*;

verus! {

/// A ping frame goes out every this many one-second ticks while connected.
pub const PING_EVERY_TICKS: u64 = 5;

/// Silence on the wire longer than this, in milliseconds, counts as a dead
/// connection.
pub const SILENCE_LIMIT_MILLIS: u128 = 15000;

/// Whether the silence deadline has passed: more than the limit elapsed
/// since the last inbound activity. A clock that moved backwards never
/// trips the deadline.
pub open spec fn spec_silence_exceeded(last: u128, now: u128) -> bool {
    now > last && now - last > SILENCE_LIMIT_MILLIS
}

/// What one timer tick asks the driver to do.
pub struct TickAction {
    /// Send a keepalive ping frame.
    pub send_ping: bool,
    /// The connection went silent: reset it.
    pub force_reconnect: bool,
}

/// The keepalive and liveness timer: a one-second tick drives a periodic
/// ping and a silence deadline that converts a dead connection into a
/// reconnect within one tick.
pub struct Keepalive {
    /// Ticks seen so far; saturates at the machine limit.
    pub ticks: u64,
    /// When the wire last showed life (a ping, a pong, a clip, or a
    /// successful connect), in milliseconds since the Unix epoch.
    pub last_communication_at: u128,
}

impl Keepalive {
    pub fn new(now: u128) -> (r: Keepalive)
        ensures
            r.ticks == 0,
            r.last_communication_at == now,
    {
        Keepalive { ticks: 0, last_communication_at: now }
    }

    /// Notes inbound activity: the silence deadline starts over from `now`.
    pub fn record_activity(&mut self, now: u128)
        ensures
            final(self).last_communication_at == now,
            final(self).ticks == old(self).ticks,
    {
        self.last_communication_at = now;
    }

    /// One timer tick: asks for a ping on every fifth tick while connected,
    /// and for a reconnect once the wire has been silent for longer than
    /// the limit. On a forced reconnect the deadline starts over, so one
    /// silent stretch forces exactly one reconnect.
    pub fn on_tick(&mut self, now: u128, connected: bool) -> (r: TickAction)
        ensures
            final(self).ticks == if old(self).ticks < u64::MAX {
                old(self).ticks + 1
            } else {
                old(self).ticks as int
            },
            r.send_ping == (connected && final(self).ticks % PING_EVERY_TICKS == 0),
            r.force_reconnect == spec_silence_exceeded(old(self).last_communication_at, now),
            final(self).last_communication_at == if r.force_reconnect {
                now
            } else {
                old(self).last_communication_at
            },
    {
        if self.ticks < u64::MAX {
            self.ticks = self.ticks + 1;
        }
        let send_ping = connected && self.ticks % PING_EVERY_TICKS == 0;
        let silent = now > self.last_communication_at && now - self.last_communication_at
            > SILENCE_LIMIT_MILLIS;
        if silent {
            self.last_communication_at = now;
        }
        TickAction { send_ping, force_reconnect: silent }
    }
}

} // verus!
