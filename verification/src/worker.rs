use vstd::prelude::*;
use crate::clip::Clip;
use crate::codec::spec_clip_json;
use crate::keepalive::{Keepalive, spec_silence_exceeded, PING_EVERY_TICKS};
use crate::session::{Session, SessionEvent, SessionState};
use crate::store::Store;

verus! {

/// What the worker surfaces to the host.
#[derive(Debug)]
pub enum HostEvent {
    /// The session came up (`true`) or went down (`false`).
    ConnectivityChanged(bool),
    /// A clip from the server that the store accepted.
    NewClip(Clip),
}

/// The squash of a run of host events, oldest first: the text of the latest
/// clip event and the flag of the latest connectivity event, either absent
/// when no event of its kind is in the run.
pub open spec fn spec_squash(events: Seq<HostEvent>) -> (Option<Seq<char>>, Option<bool>)
    decreases events.len(),
{
    if events.len() == 0 {
        (None, None)
    } else {
        let prev = spec_squash(events.drop_last());
        match events.last() {
            HostEvent::NewClip(clip) => (Some(clip.text@), prev.1),
            HostEvent::ConnectivityChanged(b) => (prev.0, Some(b)),
        }
    }
}

/// Drains a run of host events into what `poll` hands the host: the latest
/// text-carrying event wins, the latest connectivity event wins.
pub fn squash_events(events: &Vec<HostEvent>) -> (r: (Option<String>, Option<bool>))
    ensures
        r.1 == spec_squash(events@).1,
        match (r.0, spec_squash(events@).0) {
            (Some(s), Some(t)) => s@ == t,
            (None, None) => true,
            _ => false,
        },
{
    let mut text: Option<String> = None;
    let mut connectivity: Option<bool> = None;
    let mut i: usize = 0;
    while i < events.len()
        invariant
            i <= events@.len(),
            connectivity == spec_squash(events@.subrange(0, i as int)).1,
            match (text, spec_squash(events@.subrange(0, i as int)).0) {
                (Some(s), Some(t)) => s@ == t,
                (None, None) => true,
                _ => false,
            },
        decreases events@.len() - i,
    {
        proof {
            assert(events@.subrange(0, i + 1 as int).drop_last() =~= events@.subrange(
                0,
                i as int,
            ));
            assert(events@.subrange(0, i + 1 as int).last() == events@[i as int]);
        }
        match &events[i] {
            HostEvent::NewClip(clip) => {
                text = Some(clip.text.clone());
            },
            HostEvent::ConnectivityChanged(b) => {
                connectivity = Some(*b);
            },
        }
        i = i + 1;
    }
    proof {
        assert(events@.subrange(0, events@.len() as int) =~= events@);
    }
    (text, connectivity)
}

/// The host-facing side of the worker: the queue of host events not yet
/// polled, and the model of the wakeup pipe. Emitting an event enqueues it
/// and writes one byte, so the written-byte count always covers the event
/// count.
pub struct Outbox {
    queue: Vec<HostEvent>,
    events_total: u64,
    wakeup_bytes: u64,
}

impl Outbox {
    /// The events emitted and not yet polled, oldest first.
    pub closed spec fn queue(&self) -> Seq<HostEvent> {
        self.queue@
    }

    /// How many host events were ever emitted.
    pub closed spec fn events_total(&self) -> u64 {
        self.events_total
    }

    /// How many wakeup bytes were ever written.
    pub closed spec fn wakeup_bytes(&self) -> u64 {
        self.wakeup_bytes
    }

    /// The wakeup pipe never falls behind the events: at least one byte was
    /// written for every event ever emitted.
    pub open spec fn wf(&self) -> bool {
        self.wakeup_bytes() >= self.events_total()
    }

    /// One event emitted: the queue grows by exactly that event, and the
    /// event count and the wakeup-byte count move together, one byte written
    /// per event (each counter saturating only at the machine limit).
    pub open spec fn spec_emit(self, ev: HostEvent, post: Outbox) -> bool {
        &&& post.queue() == self.queue().push(ev)
        &&& post.events_total() == if self.events_total() < u64::MAX {
            self.events_total() + 1
        } else {
            self.events_total() as int
        }
        &&& post.wakeup_bytes() == if self.wakeup_bytes() < u64::MAX {
            self.wakeup_bytes() + 1
        } else {
            self.wakeup_bytes() as int
        }
    }

    pub fn new() -> (r: Outbox)
        ensures
            r.wf(),
            r.queue() == Seq::<HostEvent>::empty(),
            r.events_total() == 0,
            r.wakeup_bytes() == 0,
    {
        Outbox { queue: Vec::new(), events_total: 0, wakeup_bytes: 0 }
    }

    /// Enqueues one host event and writes one wakeup byte.
    fn emit(&mut self, ev: HostEvent)
        ensures
            old(self).spec_emit(ev, *final(self)),
            old(self).wf() ==> final(self).wf(),
    {
        self.queue.push(ev);
        if self.events_total < u64::MAX {
            self.events_total = self.events_total + 1;
        }
        if self.wakeup_bytes < u64::MAX {
            self.wakeup_bytes = self.wakeup_bytes + 1;
        }
    }

    /// How many host events were ever emitted, as an executable count.
    pub fn total_events(&self) -> (r: u64)
        ensures
            r == self.events_total(),
    {
        self.events_total
    }

    /// How many wakeup bytes were ever written, as an executable count.
    pub fn bytes_written(&self) -> (r: u64)
        ensures
            r == self.wakeup_bytes(),
    {
        self.wakeup_bytes
    }

    /// Hands out everything emitted and not yet polled, oldest first.
    pub fn drain(&mut self) -> (r: Vec<HostEvent>)
        ensures
            r@ == old(self).queue(),
            final(self).queue() == Seq::<HostEvent>::empty(),
            final(self).events_total() == old(self).events_total(),
            final(self).wakeup_bytes() == old(self).wakeup_bytes(),
            old(self).wf() ==> final(self).wf(),
    {
        let mut q: Vec<HostEvent> = Vec::new();
        core::mem::swap(&mut q, &mut self.queue);
        q
    }
}

/// The worker's decisions: one value that owns the deduplication store, the
/// session state machine, the liveness timer and the outbox, and advances
/// them on each host command, session event, and timer tick. The unverified
/// shell performs the I/O these decisions call for and feeds the outcomes
/// back in.
pub struct Worker {
    pub store: Store,
    pub session: Session,
    pub keepalive: Keepalive,
    pub outbox: Outbox,
    pub stopped: bool,
}

impl Worker {
    pub open spec fn wf(&self) -> bool {
        self.outbox.wf()
    }

    pub fn new(now: u128) -> (r: Worker)
        ensures
            r.wf(),
            r.store.last() is None,
            r.session.state is ReadyToConnect,
            r.session.retry.attempts_count == 0,
            r.session.pending is None,
            r.keepalive.ticks == 0,
            r.keepalive.last_communication_at == now,
            r.outbox.queue() == Seq::<HostEvent>::empty(),
            r.outbox.events_total() == 0,
            r.outbox.wakeup_bytes() == 0,
            !r.stopped,
    {
        Worker {
            store: Store::new(),
            session: Session::new(),
            keepalive: Keepalive::new(now),
            outbox: Outbox::new(),
            stopped: false,
        }
    }

    /// A host command: a clip from the local clipboard. The store decides
    /// whether it is new; a new clip goes to the session, which hands back
    /// the frame to put on the wire when connected and otherwise remembers
    /// the clip as pending. The first result is the newness reply for the
    /// host; a stale clip touches nothing and sends nothing.
    pub fn handle_command(&mut self, clip: Clip) -> (r: (bool, Option<String>))
        ensures
            final(self).keepalive == old(self).keepalive,
            final(self).outbox == old(self).outbox,
            final(self).stopped == old(self).stopped,
            old(self).stopped ==> *final(self) == *old(self) && r == (false, None::<String>),
            !old(self).stopped ==> {
                &&& r.0 == old(self).store.spec_accepts(clip)
                &&& (r.0 ==> final(self).store.last() == Some(clip))
                &&& (!r.0 ==> final(self).store == old(self).store && final(self).session == old(self).session && r.1 is None)
                &&& (r.0 && old(self).session.state is Connected ==> (r.1 matches Some(f) && f@
                    == spec_clip_json(clip.text@, clip.timestamp) && final(self).session == old(self).session))
                &&& (r.0 && !(old(self).session.state is Connected) ==> r.1 is None && final(self).session.pending == Some(clip) && final(self).session.state == old(self).session.state && final(self).session.retry == old(self).session.retry)
            },
    {
        if self.stopped {
            return (false, None);
        }
        let is_new = self.store.add(&clip);
        if is_new {
            let frame = self.session.send_clip(clip);
            (true, frame)
        } else {
            (false, None)
        }
    }

    /// One session event, as reported by `Session::advance`. `Connected`
    /// surfaces as connectivity up, restarts the silence deadline, and
    /// hands back the pending clip's frame for flushing; `Disconnected` and
    /// `AuthFailed` surface as connectivity down; an inbound clip is
    /// surfaced iff the store accepts it; inbound pings, pongs and clips
    /// restart the silence deadline. Everything else is internal.
    pub fn handle_session_event(&mut self, ev: SessionEvent, now: u128) -> (flush: Option<
        String,
    >)
        ensures
            old(self).wf() ==> final(self).wf(),
            final(self).session == old(self).session,
            final(self).stopped == old(self).stopped,
            old(self).stopped ==> *final(self) == *old(self) && flush is None,
            !old(self).stopped ==> match ev {
                SessionEvent::Connected => {
                    &&& old(self).outbox.spec_emit(
                        HostEvent::ConnectivityChanged(true),
                        final(self).outbox,
                    )
                    &&& final(self).keepalive.last_communication_at == now
                    &&& final(self).keepalive.ticks == old(self).keepalive.ticks
                    &&& final(self).store == old(self).store
                    &&& match (old(self).session.state, old(self).session.pending) {
                        (SessionState::Connected, Some(c)) => flush matches Some(f) && f@
                            == spec_clip_json(c.text@, c.timestamp),
                        _ => flush is None,
                    }
                },
                SessionEvent::Disconnected => {
                    &&& old(self).outbox.spec_emit(
                        HostEvent::ConnectivityChanged(false),
                        final(self).outbox,
                    )
                    &&& final(self).keepalive == old(self).keepalive
                    &&& final(self).store == old(self).store
                    &&& flush is None
                },
                SessionEvent::AuthFailed => {
                    &&& old(self).outbox.spec_emit(
                        HostEvent::ConnectivityChanged(false),
                        final(self).outbox,
                    )
                    &&& final(self).keepalive == old(self).keepalive
                    &&& final(self).store == old(self).store
                    &&& flush is None
                },
                SessionEvent::ReceivedClip(c) => {
                    &&& (old(self).store.spec_accepts(c) ==> final(self).store.last() == Some(c)
                        && old(self).outbox.spec_emit(HostEvent::NewClip(c), final(self).outbox))
                    &&& (!old(self).store.spec_accepts(c) ==> final(self).store == old(self).store && final(self).outbox == old(self).outbox)
                    &&& final(self).keepalive.last_communication_at == now
                    &&& final(self).keepalive.ticks == old(self).keepalive.ticks
                    &&& flush is None
                },
                SessionEvent::ReceivedPing => {
                    &&& final(self).keepalive.last_communication_at == now
                    &&& final(self).keepalive.ticks == old(self).keepalive.ticks
                    &&& final(self).outbox == old(self).outbox
                    &&& final(self).store == old(self).store
                    &&& flush is None
                },
                SessionEvent::ReceivedPong => {
                    &&& final(self).keepalive.last_communication_at == now
                    &&& final(self).keepalive.ticks == old(self).keepalive.ticks
                    &&& final(self).outbox == old(self).outbox
                    &&& final(self).store == old(self).store
                    &&& flush is None
                },
                _ => *final(self) == *old(self) && flush is None,
            },
    {
        if self.stopped {
            return None;
        }
        match ev {
            SessionEvent::Connected => {
                self.outbox.emit(HostEvent::ConnectivityChanged(true));
                self.keepalive.record_activity(now);
                self.session.pending_frame()
            },
            SessionEvent::Disconnected => {
                self.outbox.emit(HostEvent::ConnectivityChanged(false));
                None
            },
            SessionEvent::AuthFailed => {
                self.outbox.emit(HostEvent::ConnectivityChanged(false));
                None
            },
            SessionEvent::ReceivedClip(c) => {
                if self.store.add(&c) {
                    self.outbox.emit(HostEvent::NewClip(c));
                }
                self.keepalive.record_activity(now);
                None
            },
            SessionEvent::ReceivedPing => {
                self.keepalive.record_activity(now);
                None
            },
            SessionEvent::ReceivedPong => {
                self.keepalive.record_activity(now);
                None
            },
            _ => None,
        }
    }

    /// One timer tick. The silence deadline forces a reconnect: the session
    /// snaps back to `ReadyToConnect` with a fresh backoff counter and the
    /// host sees connectivity go down. The result asks the driver to put a
    /// ping frame on the wire, which it does only while connected and never
    /// on a tick that forced a reconnect.
    pub fn handle_tick(&mut self, now: u128) -> (send_ping: bool)
        ensures
            old(self).wf() ==> final(self).wf(),
            final(self).store == old(self).store,
            final(self).stopped == old(self).stopped,
            old(self).stopped ==> *final(self) == *old(self) && !send_ping,
            !old(self).stopped ==> {
                &&& final(self).keepalive.ticks == if old(self).keepalive.ticks < u64::MAX {
                    old(self).keepalive.ticks + 1
                } else {
                    old(self).keepalive.ticks as int
                }
                &&& (spec_silence_exceeded(old(self).keepalive.last_communication_at, now)
                    ==> final(self).session == old(self).session.spec_reset() && old(
                    self,
                ).outbox.spec_emit(HostEvent::ConnectivityChanged(false), final(self).outbox)
                    && !send_ping && final(self).keepalive.last_communication_at == now)
                &&& (!spec_silence_exceeded(old(self).keepalive.last_communication_at, now)
                    ==> final(self).session == old(self).session && final(self).outbox == old(
                    self,
                ).outbox && final(self).keepalive.last_communication_at == old(
                    self,
                ).keepalive.last_communication_at && send_ping == (old(self).session.state is Connected && final(self).keepalive.ticks % PING_EVERY_TICKS
                    == 0))
            },
    {
        if self.stopped {
            return false;
        }
        let connected = self.session.send_ping();
        let action = self.keepalive.on_tick(now, connected);
        if action.force_reconnect {
            self.session.reset_connection();
            self.outbox.emit(HostEvent::ConnectivityChanged(false));
            false
        } else {
            action.send_ping
        }
    }

    /// Non-blocking poll for the host: drains the events emitted so far and
    /// squashes them into the latest text and the latest connectivity flag.
    pub fn poll(&mut self) -> (r: (Option<String>, Option<bool>))
        ensures
            old(self).wf() ==> final(self).wf(),
            final(self).store == old(self).store,
            final(self).session == old(self).session,
            final(self).keepalive == old(self).keepalive,
            final(self).stopped == old(self).stopped,
            final(self).outbox.queue() == Seq::<HostEvent>::empty(),
            final(self).outbox.events_total() == old(self).outbox.events_total(),
            final(self).outbox.wakeup_bytes() == old(self).outbox.wakeup_bytes(),
            r.1 == spec_squash(old(self).outbox.queue()).1,
            match (r.0, spec_squash(old(self).outbox.queue()).0) {
                (Some(s), Some(t)) => s@ == t,
                (None, None) => true,
                _ => false,
            },
    {
        let drained = self.outbox.drain();
        squash_events(&drained)
    }

    /// Notes that the pending clip's frame went out on the wire.
    pub fn mark_pending_sent(&mut self)
        ensures
            final(self).session.pending is None,
            final(self).session.state == old(self).session.state,
            final(self).session.retry == old(self).session.retry,
            final(self).store == old(self).store,
            final(self).keepalive == old(self).keepalive,
            final(self).outbox == old(self).outbox,
            final(self).stopped == old(self).stopped,
    {
        self.session.mark_pending_sent();
    }

    /// Shuts the worker down: every later command, session event and tick
    /// is a no-op, so nothing is enqueued after a stop.
    pub fn stop(&mut self)
        ensures
            final(self).stopped,
            final(self).store == old(self).store,
            final(self).session == old(self).session,
            final(self).keepalive == old(self).keepalive,
            final(self).outbox == old(self).outbox,
    {
        self.stopped = true;
    }
}

} // verus!
