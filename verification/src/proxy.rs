use vstd::prelude::*;
use vstd::string::StringExecFns;
use vstd::utf8::encode_utf8;

use crate::error::Error;
use crate::packet::disconnect_login::DisconnectLogin;
use crate::packet::handshake::Handshake;
use crate::packet::status_response::{status_readback_supported, StatusResponse};
use crate::packet::{read_packet, spec_packet_frame, spec_read_packet, write_packet,
    PacketEncoder};
use crate::raw_json_text::{rjt_view, spec_rjt_json, RawJsonText, RawJsonTextView};
use crate::server::{motd_session, spec_motd_session, MotdConfig};

verus! {

/// How many consecutive idle monitor ticks the default configuration
/// tolerates before one more stops the backend.
pub const DEFAULT_IDLE_THRESHOLD: u64 = 3;

/// The backend's lifecycle as the proxy sees it.  The only edges are the
/// cycle Dormant -> Starting -> Proxying -> Stopping -> Dormant, plus
/// Starting -> Dormant when the cloud start call fails.
#[derive(Clone, Copy, Debug, PartialEq, Eq, Structural)]
pub enum ProxyState {
    Dormant,
    Starting,
    Proxying,
    Stopping,
}

/// Where the router sends one inbound connection after its handshake.
#[derive(Clone, Copy, Debug, PartialEq, Eq, Structural)]
pub enum RouteDecision {
    /// Answer the status dialogue with synthetic metadata; no backend
    /// contact.
    Motd,
    /// Open a backend connection and splice raw bytes both ways.
    Splice,
    /// Claim the start sequence: the caller must call the cloud start API,
    /// exactly once.
    StartBackend,
    /// Reply with a disconnect notice: the backend is starting or stopping.
    RejectBusy,
    /// An unknown next state: drop the connection without a reply.
    Invalid,
}

/// What the backend looked like on one monitor tick.
#[derive(Clone, Copy, Debug, PartialEq, Eq, Structural)]
pub enum TickObservation {
    /// The status query failed: usage could not be determined.
    Unreachable,
    /// The status query succeeded with this many players online.
    Online(u64),
}

/// What one monitor tick asks of the caller.
#[derive(Clone, Copy, Debug, PartialEq, Eq, Structural)]
pub enum TickAction {
    Nothing,
    /// Call the cloud stop API and report the outcome back.
    StopBackend,
}

/// One event the controller reacts to.
#[derive(Clone, Copy, Debug, PartialEq, Eq, Structural)]
pub enum ControllerEvent {
    /// A login-intent handshake arrived.
    Login,
    /// The cloud start call returned.
    StartResult(bool),
    /// A readiness poll of the backend returned.
    Poll(bool),
    /// A monitor tick observed the backend.
    Tick(TickObservation),
    /// The cloud stop call returned.
    StopResult(bool),
}

/// The lifecycle controller: the shared state, the count of consecutive
/// monitor ticks that saw zero players, and the configured threshold that
/// count must exceed before the backend is stopped.
#[derive(Clone, Copy, Debug, PartialEq, Eq, Structural)]
pub struct Controller {
    pub state: ProxyState,
    pub idle_ticks: u64,
    pub idle_threshold: u64,
}

/// The allowed state edges.
pub open spec fn edge_ok(s1: ProxyState, s2: ProxyState) -> bool {
    ||| s1 == s2
    ||| (s1 == ProxyState::Dormant && s2 == ProxyState::Starting)
    ||| (s1 == ProxyState::Starting && s2 == ProxyState::Proxying)
    ||| (s1 == ProxyState::Starting && s2 == ProxyState::Dormant)
    ||| (s1 == ProxyState::Proxying && s2 == ProxyState::Stopping)
    ||| (s1 == ProxyState::Stopping && s2 == ProxyState::Dormant)
}

/// Which connection path a handshake's next state selects, given the
/// controller state the router observed.  A status request is always the
/// responder's; a login rides the proxy, claims a start, or is turned away;
/// anything else is a protocol error.
pub open spec fn spec_route(state: ProxyState, next_status: i32) -> RouteDecision {
    if next_status == 1 {
        RouteDecision::Motd
    } else if next_status == 2 {
        match state {
            ProxyState::Dormant => RouteDecision::StartBackend,
            ProxyState::Proxying => RouteDecision::Splice,
            _ => RouteDecision::RejectBusy,
        }
    } else {
        RouteDecision::Invalid
    }
}

/// The executable router decision.
pub fn route(state: ProxyState, next_status: i32) -> (d: RouteDecision)
    ensures
        d == spec_route(state, next_status),
{
    if next_status == 1 {
        RouteDecision::Motd
    } else if next_status == 2 {
        match state {
            ProxyState::Dormant => RouteDecision::StartBackend,
            ProxyState::Proxying => RouteDecision::Splice,
            _ => RouteDecision::RejectBusy,
        }
    } else {
        RouteDecision::Invalid
    }
}

impl Controller {
    /// The idle count never runs ahead of the threshold, and one more tick
    /// can always be counted.
    pub open spec fn wf(&self) -> bool {
        &&& self.idle_threshold < u64::MAX
        &&& self.idle_ticks <= self.idle_threshold
    }

    /// A login-intent handshake: while dormant it claims the start sequence
    /// atomically, so that no second login can claim it again.
    pub open spec fn spec_login(self) -> (Controller, RouteDecision) {
        match self.state {
            ProxyState::Dormant => (
                Controller { state: ProxyState::Starting, ..self },
                RouteDecision::StartBackend,
            ),
            ProxyState::Proxying => (self, RouteDecision::Splice),
            _ => (self, RouteDecision::RejectBusy),
        }
    }

    /// The cloud start call returned: a failure releases the claim.
    pub open spec fn spec_start_result(self, ok: bool) -> Controller {
        if self.state == ProxyState::Starting && !ok {
            Controller { state: ProxyState::Dormant, ..self }
        } else {
            self
        }
    }

    /// A readiness poll returned: the first success begins proxying with a
    /// fresh idle count; a failure changes nothing and the poll is retried.
    pub open spec fn spec_poll(self, reachable: bool) -> Controller {
        if self.state == ProxyState::Starting && reachable {
            Controller { state: ProxyState::Proxying, idle_ticks: 0, ..self }
        } else {
            self
        }
    }

    /// One monitor tick.  Only the proxying state reads the observation: a
    /// failed query changes nothing, players online reset the idle count,
    /// an empty backend counts one more idle tick, and the tick on which
    /// the count would exceed the threshold moves to stopping and asks for
    /// the cloud stop call.  While stopping, a tick retries a stop call
    /// whose earlier attempt failed, so a failure is never taken for
    /// success.
    pub open spec fn spec_tick(self, obs: TickObservation) -> (Controller, TickAction) {
        match self.state {
            ProxyState::Proxying => match obs {
                TickObservation::Unreachable => (self, TickAction::Nothing),
                TickObservation::Online(n) => if n > 0 {
                    (Controller { idle_ticks: 0, ..self }, TickAction::Nothing)
                } else if self.idle_ticks + 1 > self.idle_threshold {
                    (
                        Controller { state: ProxyState::Stopping, idle_ticks: 0, ..self },
                        TickAction::StopBackend,
                    )
                } else {
                    (
                        Controller { idle_ticks: (self.idle_ticks + 1) as u64, ..self },
                        TickAction::Nothing,
                    )
                },
            },
            ProxyState::Stopping => (self, TickAction::StopBackend),
            _ => (self, TickAction::Nothing),
        }
    }

    /// The cloud stop call returned: success completes the cycle back to
    /// dormant; failure stays stopping, to be retried on the next tick.
    pub open spec fn spec_stop_result(self, ok: bool) -> Controller {
        if self.state == ProxyState::Stopping && ok {
            Controller { state: ProxyState::Dormant, idle_ticks: 0, ..self }
        } else {
            self
        }
    }

    /// A fresh controller: dormant, with no idle ticks counted.
    pub fn new(idle_threshold: u64) -> (r: Controller)
        requires
            idle_threshold < u64::MAX,
        ensures
            r == (Controller {
                state: ProxyState::Dormant,
                idle_ticks: 0,
                idle_threshold,
            }),
            r.wf(),
    {
        Controller { state: ProxyState::Dormant, idle_ticks: 0, idle_threshold }
    }

    /// Reacts to a login-intent handshake.
    pub fn handle_login(&mut self) -> (d: RouteDecision)
        ensures
            (*final(self), d) == old(self).spec_login(),
    {
        match self.state {
            ProxyState::Dormant => {
                self.state = ProxyState::Starting;
                RouteDecision::StartBackend
            },
            ProxyState::Proxying => RouteDecision::Splice,
            _ => RouteDecision::RejectBusy,
        }
    }

    /// Records the outcome of the cloud start call.
    pub fn on_start_result(&mut self, ok: bool)
        ensures
            *final(self) == old(self).spec_start_result(ok),
    {
        match self.state {
            ProxyState::Starting => if !ok {
                self.state = ProxyState::Dormant;
            },
            _ => {},
        }
    }

    /// Records the outcome of one readiness poll.
    pub fn on_poll(&mut self, reachable: bool)
        ensures
            *final(self) == old(self).spec_poll(reachable),
    {
        match self.state {
            ProxyState::Starting => if reachable {
                self.state = ProxyState::Proxying;
                self.idle_ticks = 0;
            },
            _ => {},
        }
    }

    /// Runs one monitor tick.
    pub fn on_monitor_tick(&mut self, obs: TickObservation) -> (a: TickAction)
        requires
            old(self).wf(),
        ensures
            (*final(self), a) == old(self).spec_tick(obs),
            final(self).wf(),
    {
        match self.state {
            ProxyState::Proxying => match obs {
                TickObservation::Unreachable => TickAction::Nothing,
                TickObservation::Online(n) => if n > 0 {
                    self.idle_ticks = 0;
                    TickAction::Nothing
                } else if self.idle_ticks + 1 > self.idle_threshold {
                    self.state = ProxyState::Stopping;
                    self.idle_ticks = 0;
                    TickAction::StopBackend
                } else {
                    self.idle_ticks = self.idle_ticks + 1;
                    TickAction::Nothing
                },
            },
            ProxyState::Stopping => TickAction::StopBackend,
            _ => TickAction::Nothing,
        }
    }

    /// Records the outcome of the cloud stop call.
    pub fn on_stop_result(&mut self, ok: bool)
        ensures
            *final(self) == old(self).spec_stop_result(ok),
    {
        match self.state {
            ProxyState::Stopping => if ok {
                self.state = ProxyState::Dormant;
                self.idle_ticks = 0;
            },
            _ => {},
        }
    }
}

/// One event applied to the controller, with how many cloud start and stop
/// calls it asked for.
pub open spec fn spec_step(c: Controller, e: ControllerEvent) -> (Controller, int, int) {
    match e {
        ControllerEvent::Login => {
            let (c1, d) = c.spec_login();
            (c1, if d == RouteDecision::StartBackend { 1int } else { 0int }, 0int)
        },
        ControllerEvent::StartResult(ok) => (c.spec_start_result(ok), 0int, 0int),
        ControllerEvent::Poll(r) => (c.spec_poll(r), 0int, 0int),
        ControllerEvent::Tick(o) => {
            let (c1, a) = c.spec_tick(o);
            (c1, 0int, if a == TickAction::StopBackend { 1int } else { 0int })
        },
        ControllerEvent::StopResult(ok) => (c.spec_stop_result(ok), 0int, 0int),
    }
}

/// A sequence of events applied in order, with the total cloud start and
/// stop calls they asked for.
pub open spec fn spec_run(c: Controller, evs: Seq<ControllerEvent>) -> (Controller, int, int)
    decreases evs.len(),
{
    if evs.len() == 0 {
        (c, 0int, 0int)
    } else {
        let (c1, a1, b1) = spec_step(c, evs[0]);
        let (c2, a2, b2) = spec_run(c1, evs.subrange(1, evs.len() as int));
        (c2, a1 + a2, b1 + b2)
    }
}

/// Every event respects the allowed edges, keeps the controller well
/// formed, and never touches the configured threshold.
pub proof fn lemma_step_edges(c: Controller, e: ControllerEvent)
    requires
        c.wf(),
    ensures
        edge_ok(c.state, spec_step(c, e).0.state),
        spec_step(c, e).0.wf(),
        spec_step(c, e).0.idle_threshold == c.idle_threshold,
{
}

/// A status-intent handshake is handed to the responder whatever the
/// controller state: no backend decision is taken on that path.
pub proof fn lemma_status_routes_to_responder(state: ProxyState)
    ensures
        spec_route(state, 1) == RouteDecision::Motd,
{
}

/// The router's login decision agrees with what the controller does under
/// the lock.
pub proof fn lemma_route_login_agrees(c: Controller)
    ensures
        spec_route(c.state, 2) == c.spec_login().1,
{
}

/// Two login attempts while the backend is dormant cause exactly one cloud
/// start call: the first claims the start atomically, the second is turned
/// away, in whichever order the lock admits them.
pub proof fn lemma_concurrent_logins(c: Controller)
    requires
        c.state == ProxyState::Dormant,
    ensures
        ({
            let (c1, d1) = c.spec_login();
            let (c2, d2) = c1.spec_login();
            &&& d1 == RouteDecision::StartBackend
            &&& d2 == RouteDecision::RejectBusy
            &&& c2.state == ProxyState::Starting
        }),
        spec_run(
            c,
            seq![ControllerEvent::Login, ControllerEvent::Login],
        ).1 == 1,
{
    reveal_with_fuel(spec_run, 3);
    let evs = seq![ControllerEvent::Login, ControllerEvent::Login];
    assert(evs.subrange(1, 2)[0] == ControllerEvent::Login);
    assert(evs.subrange(1, 2).subrange(1, 1) =~= Seq::<ControllerEvent>::empty());
}

/// A successful start and the first successful readiness poll take the
/// controller from dormant through starting to proxying, with the idle
/// count fresh.
pub proof fn lemma_start_poll_sequence(c: Controller)
    requires
        c.state == ProxyState::Dormant,
    ensures
        ({
            let (c1, d) = c.spec_login();
            let c2 = c1.spec_start_result(true);
            let c3 = c2.spec_poll(true);
            &&& d == RouteDecision::StartBackend
            &&& c1.state == ProxyState::Starting
            &&& c2.state == ProxyState::Starting
            &&& c3.state == ProxyState::Proxying
            &&& c3.idle_ticks == 0
        }),
{
}

/// The controller after `n` consecutive zero-player monitor ticks, with
/// how many stop calls they asked for.
pub open spec fn run_zero_ticks(c: Controller, n: nat) -> (Controller, int)
    decreases n,
{
    if n == 0 {
        (c, 0int)
    } else {
        let (c1, a) = c.spec_tick(TickObservation::Online(0));
        let (c2, k) = run_zero_ticks(c1, (n - 1) as nat);
        (c2, (if a == TickAction::StopBackend { 1int } else { 0int }) + k)
    }
}

/// Ticks compose: running `m + k` zero-player ticks is running `m`, then
/// `k` from where that left off, with the stop calls added up.
pub proof fn lemma_run_zero_ticks_split(c: Controller, m: nat, k: nat)
    ensures
        run_zero_ticks(c, m + k).0 == run_zero_ticks(run_zero_ticks(c, m).0, k).0,
        run_zero_ticks(c, m + k).1 == run_zero_ticks(c, m).1 + run_zero_ticks(
            run_zero_ticks(c, m).0,
            k,
        ).1,
    decreases m,
{
    if m > 0 {
        let (c1, _a) = c.spec_tick(TickObservation::Online(0));
        lemma_run_zero_ticks_split(c1, (m - 1) as nat, k);
    }
}

/// While the threshold is not exceeded, zero-player ticks only count up:
/// `n` of them raise the idle count by `n` and stop nothing.
pub proof fn lemma_zero_ticks_below_threshold(c: Controller, n: nat)
    requires
        c.wf(),
        c.state == ProxyState::Proxying,
        c.idle_ticks + n <= c.idle_threshold,
    ensures
        run_zero_ticks(c, n) == (
            Controller { idle_ticks: (c.idle_ticks + n) as u64, ..c },
            0int,
        ),
    decreases n,
{
    if n == 0 {
        assert(c == Controller { idle_ticks: (c.idle_ticks + 0) as u64, ..c });
    } else {
        let (c1, _a) = c.spec_tick(TickObservation::Online(0));
        lemma_zero_ticks_below_threshold(c1, (n - 1) as nat);
    }
}

/// After threshold-plus-one consecutive zero-player ticks from a fresh
/// idle count, the controller is stopping and exactly one cloud stop call
/// was asked for: on the last of those ticks.
pub proof fn lemma_idle_shutdown(c: Controller)
    requires
        c.wf(),
        c.state == ProxyState::Proxying,
        c.idle_ticks == 0,
    ensures
        ({
            let (c2, stops) = run_zero_ticks(c, (c.idle_threshold + 1) as nat);
            &&& c2.state == ProxyState::Stopping
            &&& c2.idle_ticks == 0
            &&& stops == 1
        }),
{
    let t = c.idle_threshold as nat;
    lemma_zero_ticks_below_threshold(c, t);
    lemma_run_zero_ticks_split(c, t, 1);
    let c1 = run_zero_ticks(c, t).0;
    assert(c1.idle_ticks == c.idle_threshold);
    let (c2, a) = c1.spec_tick(TickObservation::Online(0));
    assert(run_zero_ticks(c1, 1).0 == run_zero_ticks(c2, 0).0);
    assert(c2.state == ProxyState::Stopping && a == TickAction::StopBackend);
}

/// A tick that sees players strictly between two runs of idle ticks resets
/// the count: the runs do not accumulate, and only a run that by itself
/// exceeds the threshold can stop the backend.
pub proof fn lemma_idle_reset(c: Controller, a: nat, n: u64, b: nat)
    requires
        c.wf(),
        c.state == ProxyState::Proxying,
        c.idle_ticks + a <= c.idle_threshold,
        n > 0,
        b <= c.idle_threshold,
    ensures
        ({
            let (c1, s1) = run_zero_ticks(c, a);
            let (c2, act) = c1.spec_tick(TickObservation::Online(n));
            let (c3, s3) = run_zero_ticks(c2, b);
            &&& s1 == 0
            &&& act == TickAction::Nothing
            &&& c2.idle_ticks == 0
            &&& c2.state == ProxyState::Proxying
            &&& s3 == 0
            &&& c3.state == ProxyState::Proxying
            &&& c3.idle_ticks == b
        }),
{
    lemma_zero_ticks_below_threshold(c, a);
    let (c1, _s1) = run_zero_ticks(c, a);
    let (c2, _act) = c1.spec_tick(TickObservation::Online(n));
    lemma_zero_ticks_below_threshold(c2, b);
}

/// The backend a proxy fronts: its game address and the cloud instance
/// that runs it.
#[derive(Debug)]
pub struct BackendTarget {
    pub host: String,
    pub port: u16,
    pub instance_id: String,
}

/// What handling one inbound connection's handshake asks of the caller.
#[derive(Debug)]
pub enum MotdStep {
    /// Send these bytes and close.
    Respond(Vec<u8>),
    /// The start sequence was claimed: call the cloud start API, report
    /// the outcome through `start_notice`, and send what that returns.
    StartRequested,
    /// Open a backend connection and splice raw bytes both ways.
    Splice,
}

/// The image of a step.
#[verifier::ext_equal]
pub ghost enum MotdStepView {
    Respond(Seq<u8>),
    StartRequested,
    Splice,
}

impl View for MotdStep {
    type V = MotdStepView;

    open spec fn view(&self) -> MotdStepView {
        match self {
            MotdStep::Respond(out) => MotdStepView::Respond(out@),
            MotdStep::StartRequested => MotdStepView::StartRequested,
            MotdStep::Splice => MotdStepView::Splice,
        }
    }
}

/// The wake-on-demand proxy: the controller, the addresses it stands
/// between, and its prepared answers.
#[derive(Debug)]
pub struct Server {
    pub controller: Controller,
    pub client_address: String,
    pub server_address: String,
    pub instance_id: String,
    pub motd_response: StatusResponse,
    pub start_ok_notice: DisconnectLogin,
    pub start_failed_notice: DisconnectLogin,
    pub busy_notice: DisconnectLogin,
}

/// What handling one connection's bytes does: the step for the caller and
/// the controller afterwards.  A status-intent handshake gets the
/// synthetic status dialogue; a login-intent one rides the proxy, claims
/// the start sequence, or is turned away with the busy notice; an unknown
/// intent is dropped without a reply.
pub open spec fn spec_handle_motd(srv: Server, s: Seq<u8>) -> (Result<MotdStepView, Error>, Controller) {
    match spec_read_packet::<Handshake>(s, 0) {
        Ok((h, p1)) => if h.next_status == 1 {
            match spec_motd_session(srv.motd_response, s, p1) {
                Ok((out, _end)) => (Ok(MotdStepView::Respond(out)), srv.controller),
                Err(e) => (Err(e), srv.controller),
            }
        } else if h.next_status == 2 {
            let (c2, d) = srv.controller.spec_login();
            match d {
                RouteDecision::StartBackend => (Ok(MotdStepView::StartRequested), c2),
                RouteDecision::Splice => (Ok(MotdStepView::Splice), c2),
                _ => (Ok(MotdStepView::Respond(spec_packet_frame(&srv.busy_notice))), c2),
            }
        } else {
            (Err(Error::UnsupportedNextState), srv.controller)
        },
        Err(e) => (Err(e), srv.controller),
    }
}

impl Server {
    /// The prepared answers fit their frames and the controller is well
    /// formed.
    pub open spec fn wf(&self) -> bool {
        &&& self.controller.wf()
        &&& self.motd_response.enc_wf()
        &&& self.start_ok_notice.enc_wf()
        &&& self.start_failed_notice.enc_wf()
        &&& self.busy_notice.enc_wf()
    }

    /// A new proxy between `client_address` and `server_address`, dormant,
    /// with the default idle threshold and synthetic metadata.
    pub fn new(client_address: &str, server_address: &str, instance_id: &str) -> (r: Server)
        ensures
            r.wf(),
            r.controller == (Controller {
                state: ProxyState::Dormant,
                idle_ticks: 0,
                idle_threshold: DEFAULT_IDLE_THRESHOLD,
            }),
            r.client_address@ == client_address@,
            r.server_address@ == server_address@,
            r.instance_id@ == instance_id@,
            r.motd_response@.version.name == "Not Proxying"@,
            r.motd_response@.version.protocol == 767,
            r.motd_response@.players.max == 100,
            r.motd_response@.players.online == 1,
            r.motd_response@.description == RawJsonTextView::String(
                "Connect to log in and start the backend"@,
            ),
            status_readback_supported(r.motd_response),
            rjt_view(r.start_ok_notice.reason) == RawJsonTextView::String(
                "The backend is starting. Reconnect shortly."@,
            ),
            rjt_view(r.start_failed_notice.reason) == RawJsonTextView::String(
                "The backend could not be started. Try again later."@,
            ),
            rjt_view(r.busy_notice.reason) == RawJsonTextView::String(
                "The backend is starting or stopping. Try again shortly."@,
            ),
    {
        let cfg = MotdConfig {
            version_name: String::from_str("Not Proxying"),
            protocol: 767,
            players_max: 100,
            players_online: 1,
            motd: String::from_str("Connect to log in and start the backend"),
        };
        proof {
            reveal_strlit("Not Proxying");
            reveal_strlit("Connect to log in and start the backend");
            crate::json::lemma_ascii_bytes("Not Proxying");
            crate::json::lemma_ascii_bytes("Connect to log in and start the backend");
        }
        let motd_response = cfg.status_response();
        proof {
            reveal_strlit("The backend is starting. Reconnect shortly.");
            reveal_strlit("The backend could not be started. Try again later.");
            reveal_strlit("The backend is starting or stopping. Try again shortly.");
            crate::json::lemma_ascii_bytes("The backend is starting. Reconnect shortly.");
            crate::json::lemma_ascii_bytes("The backend could not be started. Try again later.");
            crate::json::lemma_ascii_bytes("The backend is starting or stopping. Try again shortly.");
        }
        let start_ok_notice = Self::notice("The backend is starting. Reconnect shortly.");
        let start_failed_notice = Self::notice(
            "The backend could not be started. Try again later.",
        );
        let busy_notice = Self::notice("The backend is starting or stopping. Try again shortly.");
        Server {
            controller: Controller::new(DEFAULT_IDLE_THRESHOLD),
            client_address: client_address.to_owned(),
            server_address: server_address.to_owned(),
            instance_id: instance_id.to_owned(),
            motd_response,
            start_ok_notice,
            start_failed_notice,
            busy_notice,
        }
    }

    /// A disconnect notice carrying `text`.
    fn notice(text: &str) -> (r: DisconnectLogin)
        requires
            encode_utf8(text@).len() <= 0xff_ffff,
        ensures
            rjt_view(r.reason) == RawJsonTextView::String(text@),
            r.enc_wf(),
    {
        let r = DisconnectLogin { reason: RawJsonText::String(text.to_owned()) };
        proof {
            crate::json::lemma_escape_len(encode_utf8(text@));
        }
        r
    }

    /// Handles one inbound connection, given all its bytes: reads the
    /// handshake and either answers it or asks the caller to act.
    pub fn handle_motd(&mut self, input: &Vec<u8>) -> (r: Result<MotdStep, Error>)
        requires
            old(self).wf(),
        ensures
            final(self).wf(),
            (match r {
                Ok(step) => spec_handle_motd(*old(self), input@) == (
                    Ok::<MotdStepView, Error>(step@),
                    final(self).controller,
                ),
                Err(e) => spec_handle_motd(*old(self), input@) == (
                    Err::<MotdStepView, Error>(e),
                    final(self).controller,
                ),
            }),
            final(self).client_address == old(self).client_address,
            final(self).server_address == old(self).server_address,
            final(self).instance_id == old(self).instance_id,
            final(self).motd_response == old(self).motd_response,
            final(self).busy_notice == old(self).busy_notice,
            final(self).start_ok_notice == old(self).start_ok_notice,
            final(self).start_failed_notice == old(self).start_failed_notice,
    {
        let (h, p1): (Handshake, usize) = match read_packet::<Handshake>(input, 0) {
            Ok(v) => v,
            Err(e) => { return Err(e) },
        };
        if h.next_status == 1 {
            match motd_session(&self.motd_response, input, p1) {
                Ok((out, _end)) => Ok(MotdStep::Respond(out)),
                Err(e) => Err(e),
            }
        } else if h.next_status == 2 {
            match self.controller.handle_login() {
                RouteDecision::StartBackend => Ok(MotdStep::StartRequested),
                RouteDecision::Splice => Ok(MotdStep::Splice),
                _ => {
                    let mut out: Vec<u8> = Vec::new();
                    proof {
                        crate::varint::lemma_spec_varint_len(0x00);
                        crate::varint::lemma_spec_varint_len(
                            spec_rjt_json(self.busy_notice.reason).len() as u32,
                        );
                    }
                    write_packet(&self.busy_notice, &mut out);
                    proof {
                        assert(Seq::<u8>::empty() + spec_packet_frame(&self.busy_notice)
                            =~= spec_packet_frame(&self.busy_notice));
                    }
                    Ok(MotdStep::Respond(out))
                },
            }
        } else {
            Err(Error::UnsupportedNextState)
        }
    }

    /// Records the outcome of the cloud start call and hands back the
    /// notice frame for the waiting client: a request to reconnect on
    /// success, the failure notice otherwise.
    pub fn start_notice(&mut self, ok: bool) -> (r: Vec<u8>)
        requires
            old(self).wf(),
        ensures
            final(self).wf(),
            final(self).controller == old(self).controller.spec_start_result(ok),
            r@ == (if ok {
                spec_packet_frame(&old(self).start_ok_notice)
            } else {
                spec_packet_frame(&old(self).start_failed_notice)
            }),
            final(self).motd_response == old(self).motd_response,
            final(self).busy_notice == old(self).busy_notice,
            final(self).start_ok_notice == old(self).start_ok_notice,
            final(self).start_failed_notice == old(self).start_failed_notice,
    {
        self.controller.on_start_result(ok);
        let mut out: Vec<u8> = Vec::new();
        if ok {
            proof {
                crate::varint::lemma_spec_varint_len(0x00);
                crate::varint::lemma_spec_varint_len(
                    spec_rjt_json(self.start_ok_notice.reason).len() as u32,
                );
            }
            write_packet(&self.start_ok_notice, &mut out);
            proof {
                assert(Seq::<u8>::empty() + spec_packet_frame(&self.start_ok_notice)
                    =~= spec_packet_frame(&self.start_ok_notice));
            }
        } else {
            proof {
                crate::varint::lemma_spec_varint_len(0x00);
                crate::varint::lemma_spec_varint_len(
                    spec_rjt_json(self.start_failed_notice.reason).len() as u32,
                );
            }
            write_packet(&self.start_failed_notice, &mut out);
            proof {
                assert(Seq::<u8>::empty() + spec_packet_frame(&self.start_failed_notice)
                    =~= spec_packet_frame(&self.start_failed_notice));
            }
        }
        out
    }
}

} // verus!
