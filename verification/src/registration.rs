//! The heartbeat state machine of the registration service.
//!
//! The service starts awaiting the bus connection; once the bus is
//! ready it announces the node and keeps announcing it on every timer
//! tick; when the cancellation signal is closed it announces the node's
//! departure once and terminates.  Every event the host loop delivers is
//! answered by exactly one publish, so the publish order of a run is
//! fixed by its event order; the laws at the end of the module pin the
//! heartbeat cadence, the shutdown behaviour, and the shape
//! `register, register, …, deregister` of every run's trace.
//!
//! The host loop owns the timers, the cancellation channel and the bus
//! session.  It hands one [`Event`] at a time to [`Registration::step`],
//! which answers with the [`Publish`] to perform now; the payload bytes
//! for either channel come from [`Registration::register_payload`] and
//! [`Registration::deregister_payload`].

use vstd::prelude::*;
use vstd::string::*;
use vstd::utf8::encode_utf8;

use crate::config::{env_view, spec_heartbeat_interval, Configuration};
use crate::payload::{
    deregister_payload_bytes, deregister_payload_spec, register_payload_bytes,
    register_payload_spec,
};

verus! {

/// Where the service stands in its lifecycle.
#[derive(Clone, Copy, PartialEq, Eq, Structural, Debug)]
pub enum State {
    /// Waiting for the shared bus connection to appear.
    AwaitingConnection,
    /// Announcing the node on every heartbeat tick.
    Active,
    /// The departure was announced; nothing follows.
    Terminating,
}

/// What the host loop observed and hands to the machine.
#[derive(Clone, Copy, PartialEq, Eq, Structural, Debug)]
pub enum Event {
    /// The shared bus connection is ready.
    Ready,
    /// The heartbeat timer fired.
    Tick,
    /// A message arrived on the cancellation channel; no command
    /// semantics are defined for it, the service logs it and goes on.
    Message,
    /// The cancellation channel was closed.
    Closed,
}

/// What the machine publishes in answer to an event.
#[derive(Clone, Copy, PartialEq, Eq, Structural, Debug)]
pub enum Publish {
    /// The node's announcement, on the `register` channel.
    Register,
    /// The node's departure, on the `deregister` channel.
    Deregister,
}

/// Which events can reach the machine in a given state: readiness is
/// only observed while awaiting the connection, ticks and channel
/// messages only while active, and the channel's closure at either wait
/// point; nothing reaches a terminated machine.
pub open spec fn event_enabled(s: State, e: Event) -> bool {
    match s {
        State::AwaitingConnection => e is Ready || e is Closed,
        State::Active => e is Tick || e is Message || e is Closed,
        State::Terminating => false,
    }
}

/// The state after an event: closure terminates, readiness activates,
/// everything else stays put.
pub open spec fn next_state(s: State, e: Event) -> State {
    if e is Closed {
        State::Terminating
    } else if s is AwaitingConnection {
        State::Active
    } else {
        s
    }
}

/// The publish an event is answered with: a deregister for the closure,
/// a register for everything else.
pub open spec fn publish_of(e: Event) -> Publish {
    if e is Closed {
        Publish::Deregister
    } else {
        Publish::Register
    }
}

/// The state a run of events leads to.
pub open spec fn run_state(s0: State, events: Seq<Event>) -> State
    decreases events.len(),
{
    if events.len() == 0 {
        s0
    } else {
        next_state(run_state(s0, events.drop_last()), events.last())
    }
}

/// Whether a run of events can happen from the given state: each event
/// must be enabled in the state its predecessors lead to.
pub open spec fn events_valid(s0: State, events: Seq<Event>) -> bool
    decreases events.len(),
{
    if events.len() == 0 {
        true
    } else {
        events_valid(s0, events.drop_last()) && event_enabled(
            run_state(s0, events.drop_last()),
            events.last(),
        )
    }
}

/// The publishes a run of events produces, one per event, in event
/// order.
pub open spec fn run_trace(events: Seq<Event>) -> Seq<Publish> {
    Seq::new(events.len(), |i: int| publish_of(events[i]))
}

/// The registration service: its configuration, its lifecycle state, and
/// the ghost history of the run that brought it here.
pub struct Registration {
    /// Immutable configuration, fixed at construction.
    pub config: Configuration,
    /// Where the service stands.
    pub state: State,
    /// Whether shutdown was requested; set by [`Registration::fini`],
    /// never cleared.
    pub fini_requested: bool,
    /// The events delivered so far.
    pub events: Ghost<Seq<Event>>,
    /// The publishes issued so far.
    pub trace: Ghost<Seq<Publish>>,
}

impl Registration {
    /// The machine is exactly the run of its recorded events.
    pub open spec fn wf(self) -> bool {
        &&& events_valid(State::AwaitingConnection, self.events@)
        &&& self.state == run_state(State::AwaitingConnection, self.events@)
        &&& self.trace@ == run_trace(self.events@)
    }

    /// A service fresh out of [`Registration::new`] for the given
    /// arguments.
    pub open spec fn is_fresh(
        self,
        node: Seq<char>,
        grpc_endpoint: Seq<char>,
        hb_env: Option<Seq<u8>>,
    ) -> bool {
        &&& self.config.node@ == node
        &&& self.config.grpc_endpoint@ == grpc_endpoint
        &&& self.config.hb_interval_secs == spec_heartbeat_interval(hb_env)
        &&& self.state is AwaitingConnection
        &&& !self.fini_requested
        &&& self.events@ == Seq::<Event>::empty()
        &&& self.trace@ == Seq::<Publish>::empty()
        &&& self.wf()
    }

    /// Builds the service for a node and endpoint, with the heartbeat
    /// interval taken from the optional environment override.
    pub fn new(node: &str, grpc_endpoint: &str, hb_env: Option<&str>) -> (r: Registration)
        ensures
            r.is_fresh(node@, grpc_endpoint@, env_view(hb_env)),
    {
        let r = Registration {
            config: Configuration::new(node, grpc_endpoint, hb_env),
            state: State::AwaitingConnection,
            fini_requested: false,
            events: Ghost(Seq::empty()),
            trace: Ghost(Seq::empty()),
        };
        proof {
            assert(r.trace@ =~= run_trace(r.events@));
        }
        r
    }

    /// Fills the process-wide slot if it is still empty; a second call
    /// observes the existing service and changes nothing, whatever its
    /// arguments.
    pub fn init(slot: &mut Option<Registration>, node: &str, grpc_endpoint: &str, hb_env: Option<
        &str,
    >)
        ensures
            (*final(slot)) is Some,
            (*old(slot)) is Some ==> *final(slot) == *old(slot),
            (*old(slot)) is None ==> ((*final(slot)) matches Some(r) && r.is_fresh(
                node@,
                grpc_endpoint@,
                env_view(hb_env),
            )),
    {
        if slot.is_none() {
            *slot = Some(Registration::new(node, grpc_endpoint, hb_env));
        }
    }

    /// The service held in the slot.
    pub fn get(slot: &Option<Registration>) -> (r: &Registration)
        requires
            slot is Some,
        ensures
            *slot == Some(*r),
    {
        match slot {
            Some(r) => r,
            None => vstd::pervasive::unreached(),
        }
    }

    /// Requests shutdown: the cancellation signal is closed, never
    /// reopened.  Calling this again changes nothing.
    pub fn fini(&mut self)
        ensures
            *final(self) == (Registration { fini_requested: true, ..*old(self) }),
    {
        self.fini_requested = true;
    }

    /// Feeds one observed event to the machine and returns the publish
    /// that answers it.  The channel's closure can only be observed
    /// once shutdown was requested.
    pub fn step(&mut self, e: Event) -> (p: Publish)
        requires
            old(self).wf(),
            event_enabled(old(self).state, e),
            e is Closed ==> old(self).fini_requested,
        ensures
            final(self).wf(),
            final(self).config == old(self).config,
            final(self).fini_requested == old(self).fini_requested,
            final(self).events@ == old(self).events@.push(e),
            final(self).state == next_state(old(self).state, e),
            final(self).trace@ == old(self).trace@.push(p),
            p == publish_of(e),
    {
        let p = match e {
            Event::Closed => Publish::Deregister,
            _ => Publish::Register,
        };
        self.state = match e {
            Event::Closed => State::Terminating,
            Event::Ready => State::Active,
            _ => self.state,
        };
        proof {
            let ev0 = self.events@;
            self.events@ = ev0.push(e);
            self.trace@ = self.trace@.push(p);
            assert(ev0.push(e).drop_last() =~= ev0);
            assert(self.trace@ =~= run_trace(self.events@));
        }
        p
    }

    /// The bytes published on the `register` channel: the node identity
    /// and its endpoint as a compact JSON object.
    pub fn register_payload(&self) -> (out: Vec<u8>)
        ensures
            out@ == register_payload_spec(
                encode_utf8(self.config.node@),
                encode_utf8(self.config.grpc_endpoint@),
            ),
    {
        let id = self.config.node.as_str().as_bytes_vec();
        let endpoint = self.config.grpc_endpoint.as_str().as_bytes_vec();
        register_payload_bytes(&id, &endpoint)
    }

    /// The bytes published on the `deregister` channel: the node
    /// identity alone, as a compact JSON object.
    pub fn deregister_payload(&self) -> (out: Vec<u8>)
        ensures
            out@ == deregister_payload_spec(encode_utf8(self.config.node@)),
    {
        let id = self.config.node.as_str().as_bytes_vec();
        deregister_payload_bytes(&id)
    }

    /// Whether the machine has terminated.
    pub fn is_terminating(&self) -> (b: bool)
        ensures
            b == (self.state is Terminating),
    {
        match self.state {
            State::Terminating => true,
            _ => false,
        }
    }

    /// The configured node identity.
    pub fn node(&self) -> (s: &str)
        ensures
            s@ == self.config.node@,
    {
        self.config.node.as_str()
    }

    /// The configured endpoint.
    pub fn grpc_endpoint(&self) -> (s: &str)
        ensures
            s@ == self.config.grpc_endpoint@,
    {
        self.config.grpc_endpoint.as_str()
    }

    /// The configured heartbeat interval, in seconds.
    pub fn heartbeat_interval(&self) -> (secs: u64)
        ensures
            secs == self.config.hb_interval_secs,
    {
        self.config.hb_interval_secs
    }
}

/// In a valid run the channel's closure can only stand last: every
/// earlier event leaves the machine running, and the run has terminated
/// exactly when its last event is the closure.
proof fn lemma_valid_run(events: Seq<Event>)
    requires
        events_valid(State::AwaitingConnection, events),
    ensures
        run_state(State::AwaitingConnection, events) is Terminating <==> (events.len() > 0
            && events.last() is Closed),
        forall|i: int| 0 <= i < events.len() - 1 ==> !((#[trigger] events[i]) is Closed),
    decreases events.len(),
{
    if events.len() > 0 {
        let prefix = events.drop_last();
        lemma_valid_run(prefix);
        // the last event was enabled, so the prefix had not terminated,
        // and so the prefix holds no closure anywhere
        assert(!(run_state(State::AwaitingConnection, prefix) is Terminating));
        assert forall|i: int| 0 <= i < events.len() - 1 implies !(
        (#[trigger] events[i]) is Closed) by {
            assert(events[i] == prefix[i]);
        }
    }
}

/// Publish-ordering law: over any run of the service, the publishes go
/// out one per event, in event order, and every one of them is a
/// register, except that the last publish is the one deregister exactly
/// when the run has terminated.  A deregister is never followed by
/// anything and never stands anywhere but last.
pub proof fn lemma_publish_order(events: Seq<Event>)
    requires
        events_valid(State::AwaitingConnection, events),
    ensures
        run_trace(events).len() == events.len(),
        forall|i: int|
            0 <= i < events.len() ==> ((#[trigger] run_trace(events)[i]) is Deregister <==> (i
                == events.len() - 1 && run_state(State::AwaitingConnection, events) is Terminating)),
{
    lemma_valid_run(events);
    assert forall|i: int| 0 <= i < events.len() implies ((#[trigger] run_trace(events)[i])
        is Deregister <==> (i == events.len() - 1 && run_state(State::AwaitingConnection, events)
        is Terminating)) by {
        assert(run_trace(events)[i] == publish_of(events[i]));
    }
}

/// The ordering law, stated of a service instance: everything a
/// well-formed service has published is a register, except that its last
/// publish is the one deregister exactly when it has terminated.
pub proof fn lemma_instance_publish_order(r: Registration)
    requires
        r.wf(),
    ensures
        r.trace@.len() == r.events@.len(),
        forall|i: int|
            0 <= i < r.trace@.len() ==> ((#[trigger] r.trace@[i]) is Deregister <==> (i
                == r.trace@.len() - 1 && r.state is Terminating)),
{
    lemma_publish_order(r.events@);
}

/// Clean-shutdown law: a run whose last event is the closure of the
/// cancellation signal ends with exactly one deregister — every earlier
/// publish is a register — and leaves the machine terminal: no event is
/// enabled any more, so no further publish, and in particular no second
/// deregister, can follow.
pub proof fn lemma_clean_shutdown(events: Seq<Event>)
    requires
        events_valid(State::AwaitingConnection, events),
        events.len() > 0,
        events.last() is Closed,
    ensures
        run_state(State::AwaitingConnection, events) is Terminating,
        run_trace(events).last() is Deregister,
        forall|i: int| 0 <= i < events.len() - 1 ==> (#[trigger] run_trace(events)[i]) is Register,
        forall|e: Event| !event_enabled(run_state(State::AwaitingConnection, events), e),
{
    lemma_valid_run(events);
    assert forall|i: int| 0 <= i < events.len() - 1 implies (#[trigger] run_trace(events)[i])
        is Register by {
        assert(run_trace(events)[i] == publish_of(events[i]));
        assert(!(events[i] is Closed));
    }
    assert(run_trace(events).last() == publish_of(events.last()));
}

/// The slot one initialisation leaves behind: an occupied slot is left
/// untouched, an empty one receives the fresh service.
pub open spec fn init_model(slot: Option<Registration>, fresh: Registration) -> Option<
    Registration,
> {
    if slot is Some {
        slot
    } else {
        Some(fresh)
    }
}

/// Idempotent-initialisation law: initialising twice, with whatever the
/// second call would have put there, leaves exactly the first call's
/// service in the slot.
pub proof fn lemma_init_idempotent(first: Registration, second: Registration)
    ensures
        init_model(init_model(None::<Registration>, first), second) == Some(first),
{
}

/// The run that drives the heartbeat: the connection becomes ready, then
/// the timer fires `k` times with nothing else arriving.
pub open spec fn heartbeat_events(k: nat) -> Seq<Event> {
    Seq::new(
        k + 1,
        |i: int|
            if i == 0 {
                Event::Ready
            } else {
                Event::Tick
            },
    )
}

/// The instants `t0, t0 + iv, …, t0 + k·iv`.
pub open spec fn heartbeat_times(t0: nat, iv: nat, k: nat) -> Seq<int> {
    Seq::new(k + 1, |i: int| t0 + i * iv)
}

/// The heartbeat run is valid and keeps the service active.
proof fn lemma_heartbeat_run(k: nat)
    ensures
        events_valid(State::AwaitingConnection, heartbeat_events(k)),
        run_state(State::AwaitingConnection, heartbeat_events(k)) is Active,
    decreases k,
{
    let events = heartbeat_events(k);
    assert(events.len() == k + 1);
    if k == 0 {
        assert(events.drop_last() =~= Seq::<Event>::empty());
        assert(events_valid(State::AwaitingConnection, events.drop_last()));
        assert(run_state(State::AwaitingConnection, events.drop_last()) is AwaitingConnection);
        assert(events.last() == Event::Ready);
        assert(events_valid(State::AwaitingConnection, events));
    } else {
        lemma_heartbeat_run((k - 1) as nat);
        assert(events.drop_last() =~= heartbeat_events((k - 1) as nat));
        assert(events_valid(State::AwaitingConnection, events.drop_last()));
        assert(run_state(State::AwaitingConnection, events.drop_last()) is Active);
        assert(events.last() == Event::Tick);
        assert(events_valid(State::AwaitingConnection, events));
    }
}

/// Heartbeat-cadence law: with the bus ready at `t0` and the timer
/// firing every `iv` seconds thereafter, the service answers each of the
/// `k + 1` events with exactly one register publish and nothing else, so
/// the registers go out at `t0, t0 + iv, …, t0 + k·iv`, strictly in that
/// order while the interval is positive.
pub proof fn lemma_heartbeat_cadence(t0: nat, iv: nat, k: nat)
    ensures
        events_valid(State::AwaitingConnection, heartbeat_events(k)),
        run_state(State::AwaitingConnection, heartbeat_events(k)) is Active,
        run_trace(heartbeat_events(k)) =~= Seq::new(k + 1, |i: int| Publish::Register),
        heartbeat_times(t0, iv, k).len() == run_trace(heartbeat_events(k)).len(),
        forall|i: int| 0 <= i <= k ==> #[trigger] heartbeat_times(t0, iv, k)[i] == t0 + i * iv,
        iv >= 1 ==> forall|i: int, j: int|
            0 <= i < j <= k ==> #[trigger] heartbeat_times(t0, iv, k)[i] < #[trigger] heartbeat_times(
                t0,
                iv,
                k,
            )[j],
{
    lemma_heartbeat_run(k);
    assert forall|i: int| 0 <= i <= k implies run_trace(heartbeat_events(k))[i]
        == Publish::Register by {
        assert(run_trace(heartbeat_events(k))[i] == publish_of(heartbeat_events(k)[i]));
    }
    if iv >= 1 {
        assert forall|i: int, j: int| 0 <= i < j <= k implies #[trigger] heartbeat_times(
            t0,
            iv,
            k,
        )[i] < #[trigger] heartbeat_times(t0, iv, k)[j] by {
            vstd::arithmetic::mul::lemma_mul_strict_inequality(i, j, iv as int);
            vstd::arithmetic::mul::lemma_mul_is_commutative(i, iv as int);
            vstd::arithmetic::mul::lemma_mul_is_commutative(j, iv as int);
        }
    }
}

/// The channel a publish goes out on.
pub open spec fn spec_channel_of(p: Publish) -> Seq<char> {
    match p {
        Publish::Register => "register"@,
        Publish::Deregister => "deregister"@,
    }
}

/// The channel name for a publish.
pub fn channel_of(p: Publish) -> (c: &'static str)
    ensures
        c@ == spec_channel_of(p),
{
    match p {
        Publish::Register => "register",
        Publish::Deregister => "deregister",
    }
}

} // verus!

