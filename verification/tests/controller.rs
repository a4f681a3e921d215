use agent::proxy::{route, Controller, ProxyState, RouteDecision, TickAction, TickObservation};

#[test]
fn status_intent_always_goes_to_the_responder() {
    for state in [
        ProxyState::Dormant,
        ProxyState::Starting,
        ProxyState::Proxying,
        ProxyState::Stopping,
    ] {
        assert_eq!(route(state, 1), RouteDecision::Motd);
    }
}

#[test]
fn login_intent_depends_on_the_state() {
    assert_eq!(route(ProxyState::Dormant, 2), RouteDecision::StartBackend);
    assert_eq!(route(ProxyState::Proxying, 2), RouteDecision::Splice);
    assert_eq!(route(ProxyState::Starting, 2), RouteDecision::RejectBusy);
    assert_eq!(route(ProxyState::Stopping, 2), RouteDecision::RejectBusy);
}

#[test]
fn unknown_intent_is_invalid() {
    assert_eq!(route(ProxyState::Dormant, 3), RouteDecision::Invalid);
    assert_eq!(route(ProxyState::Dormant, 0), RouteDecision::Invalid);
    assert_eq!(route(ProxyState::Dormant, -1), RouteDecision::Invalid);
}

#[test]
fn start_poll_sequence_reaches_proxying() {
    let mut c = Controller::new(3);
    assert_eq!(c.state, ProxyState::Dormant);
    assert_eq!(c.handle_login(), RouteDecision::StartBackend);
    assert_eq!(c.state, ProxyState::Starting);
    c.on_start_result(true);
    assert_eq!(c.state, ProxyState::Starting);
    c.on_poll(false);
    assert_eq!(c.state, ProxyState::Starting);
    c.on_poll(true);
    assert_eq!(c.state, ProxyState::Proxying);
    assert_eq!(c.idle_ticks, 0);
}

#[test]
fn failed_start_returns_to_dormant() {
    let mut c = Controller::new(3);
    c.handle_login();
    c.on_start_result(false);
    assert_eq!(c.state, ProxyState::Dormant);
}

#[test]
fn concurrent_logins_claim_one_start() {
    let mut c = Controller::new(3);
    let first = c.handle_login();
    let second = c.handle_login();
    assert_eq!(first, RouteDecision::StartBackend);
    assert_eq!(second, RouteDecision::RejectBusy);
    assert_eq!(c.state, ProxyState::Starting);
}

#[test]
fn threshold_plus_one_idle_ticks_stop_the_backend_once() {
    let mut c = Controller::new(3);
    c.handle_login();
    c.on_start_result(true);
    c.on_poll(true);
    let mut stop_calls = 0;
    for i in 0..4 {
        let a = c.on_monitor_tick(TickObservation::Online(0));
        if a == TickAction::StopBackend {
            stop_calls += 1;
        }
        if i < 3 {
            assert_eq!(c.state, ProxyState::Proxying);
            assert_eq!(c.idle_ticks, i + 1);
        }
    }
    assert_eq!(c.state, ProxyState::Stopping);
    assert_eq!(stop_calls, 1);
    c.on_stop_result(true);
    assert_eq!(c.state, ProxyState::Dormant);
    assert_eq!(c.idle_ticks, 0);
}

#[test]
fn players_between_idle_ticks_reset_the_count() {
    let mut c = Controller::new(3);
    c.handle_login();
    c.on_start_result(true);
    c.on_poll(true);
    // Two idle ticks, one busy tick, then three more idle ticks: no stop,
    // because the busy tick reset the count.
    for _ in 0..2 {
        assert_eq!(c.on_monitor_tick(TickObservation::Online(0)), TickAction::Nothing);
    }
    assert_eq!(c.on_monitor_tick(TickObservation::Online(5)), TickAction::Nothing);
    assert_eq!(c.idle_ticks, 0);
    for _ in 0..3 {
        assert_eq!(c.on_monitor_tick(TickObservation::Online(0)), TickAction::Nothing);
    }
    assert_eq!(c.state, ProxyState::Proxying);
    assert_eq!(c.idle_ticks, 3);
}

#[test]
fn unreachable_ticks_change_nothing() {
    let mut c = Controller::new(3);
    c.handle_login();
    c.on_start_result(true);
    c.on_poll(true);
    c.on_monitor_tick(TickObservation::Online(0));
    let before = c.idle_ticks;
    assert_eq!(c.on_monitor_tick(TickObservation::Unreachable), TickAction::Nothing);
    assert_eq!(c.idle_ticks, before);
    assert_eq!(c.state, ProxyState::Proxying);
}

#[test]
fn failed_stop_is_retried_on_the_next_tick() {
    let mut c = Controller::new(0);
    c.handle_login();
    c.on_start_result(true);
    c.on_poll(true);
    assert_eq!(c.on_monitor_tick(TickObservation::Online(0)), TickAction::StopBackend);
    assert_eq!(c.state, ProxyState::Stopping);
    c.on_stop_result(false);
    assert_eq!(c.state, ProxyState::Stopping);
    assert_eq!(c.on_monitor_tick(TickObservation::Unreachable), TickAction::StopBackend);
    c.on_stop_result(true);
    assert_eq!(c.state, ProxyState::Dormant);
}

#[test]
fn ticks_outside_proxying_are_skipped() {
    let mut c = Controller::new(3);
    assert_eq!(c.on_monitor_tick(TickObservation::Online(0)), TickAction::Nothing);
    assert_eq!(c.state, ProxyState::Dormant);
    c.handle_login();
    assert_eq!(c.on_monitor_tick(TickObservation::Online(0)), TickAction::Nothing);
    assert_eq!(c.state, ProxyState::Starting);
    assert_eq!(c.idle_ticks, 0);
}
