use std::collections::HashSet;

use port_shadow::config::{Config, PortMapping};
use port_shadow::events::{AppEvent, LogLevel};
use port_shadow::forward::ForwardManager;
use port_shadow::poll::{
    configured_ports, forwards_to_stop, next_start, port_to_start, resolve_failed_event, start_failed_event,
    startup_events, stopped_event, StopReason,
};

fn mapping(remote_port: u16, local_port: Option<u16>) -> PortMapping {
    PortMapping { remote_port, local_port, label: None }
}

fn set(ports: &[u16]) -> HashSet<u16> {
    ports.iter().copied().collect()
}

#[test]
fn configured_ports_leave_out_excluded_ones() {
    let mut c = Config::default();
    c.ports = vec![mapping(22, None), mapping(3000, None), mapping(5432, Some(1)), mapping(3000, None)];
    let s = configured_ports(&c, &c.excluded_set());
    assert_eq!(s, set(&[3000, 5432]));
}

#[test]
fn start_decisions() {
    let mut m = ForwardManager::new();
    let excluded = set(&[22]);
    let listening = set(&[22, 3000, 8080]);
    assert_eq!(port_to_start(&m, &mapping(3000, None), &excluded, &listening), Some(3000));
    assert_eq!(port_to_start(&m, &mapping(8080, Some(9341)), &excluded, &listening), Some(9341));
    assert_eq!(port_to_start(&m, &mapping(22, None), &excluded, &listening), None);
    assert_eq!(port_to_start(&m, &mapping(5432, None), &excluded, &listening), None);
    m.start_forward(3000, 3000, None);
    assert_eq!(port_to_start(&m, &mapping(3000, None), &excluded, &listening), None);
}

#[test]
fn stop_decisions() {
    let mut m = ForwardManager::new();
    m.start_forward(3000, 3000, None);
    m.start_forward(5432, 5432, None);
    m.start_forward(9000, 9000, None);
    let listening = set(&[3000, 5432]);
    let configured = set(&[3000, 9000]);
    let mut plan = forwards_to_stop(&m, &listening, &configured);
    plan.sort_by_key(|x| x.0);
    assert_eq!(
        plan,
        vec![(5432, StopReason::RemovedFromConfig), (9000, StopReason::NoLongerListening)]
    );
    assert_eq!(StopReason::NoLongerListening.text(), "remote port no longer listening");
    assert_eq!(StopReason::RemovedFromConfig.text(), "removed from config");
}

#[test]
fn reported_events() {
    match stopped_event(9000, StopReason::NoLongerListening) {
        AppEvent::ForwardStopped { remote_port, reason } => {
            assert_eq!(remote_port, 9000);
            assert_eq!(reason, "remote port no longer listening");
        }
        other => panic!("unexpected {other:?}"),
    }
    match resolve_failed_event(3000, "no port") {
        AppEvent::Log { level, message } => {
            assert_eq!(level, LogLevel::Error);
            assert_eq!(message, "cannot resolve local port for :3000: no port");
        }
        other => panic!("unexpected {other:?}"),
    }
    match start_failed_event(3000, "spawn") {
        AppEvent::Log { level, message } => {
            assert_eq!(level, LogLevel::Error);
            assert_eq!(message, "failed to start forward :3000: spawn");
        }
        other => panic!("unexpected {other:?}"),
    }
}

#[test]
fn startup_warnings() {
    let mut c = Config::default();
    let events = startup_events(&c, false);
    assert_eq!(events.len(), 1);
    match &events[0] {
        AppEvent::Log { level, message } => {
            assert_eq!(*level, LogLevel::Warn);
            assert_eq!(message, "no [[ports]] in .port-shadow.toml — nothing to forward");
        }
        other => panic!("unexpected {other:?}"),
    }
    c.ports.push(mapping(3000, None));
    assert!(startup_events(&c, false).is_empty());
    c.ssh.control_path = Some("/s".to_string());
    assert!(startup_events(&c, false).is_empty());
    let events = startup_events(&c, true);
    assert_eq!(events.len(), 1);
    match &events[0] {
        AppEvent::Log { message, .. } => {
            assert_eq!(message, "ControlPath is not supported on Windows; using fresh SSH connections");
        }
        other => panic!("unexpected {other:?}"),
    }
}

#[test]
fn next_start_walks_the_configuration_in_order() {
    let mut c = Config::default();
    c.ports = vec![
        mapping(22, None),
        mapping(3000, None),
        mapping(5432, Some(15432)),
        mapping(3000, Some(1)),
        mapping(9000, None),
    ];
    let excluded = c.excluded_set();
    let listening = set(&[22, 3000, 5432]);
    let mut m = ForwardManager::new();
    assert_eq!(next_start(&m, &c, &excluded, &listening, 0), Some((1, 3000)));
    m.start_forward(3000, 3000, None);
    assert_eq!(next_start(&m, &c, &excluded, &listening, 2), Some((2, 15432)));
    m.start_forward(5432, 15432, None);
    assert_eq!(next_start(&m, &c, &excluded, &listening, 3), None);
    assert_eq!(next_start(&m, &c, &excluded, &listening, 99), None);
}

#[test]
fn one_cycle_forwards_exactly_the_wanted_ports() {
    let mut c = Config::default();
    c.ports = vec![mapping(22, None), mapping(3000, None), mapping(5432, None), mapping(8080, None)];
    let excluded = c.excluded_set();
    let listening = set(&[22, 3000, 8080, 9999]);
    let mut m = ForwardManager::new();
    m.start_forward(5432, 5432, None);
    m.start_forward(7000, 7000, None);
    m.start_forward(3000, 3000, None);
    let mut from = 0;
    while let Some((j, local)) = next_start(&m, &c, &excluded, &listening, from) {
        m.start_forward(c.ports[j].remote_port, local, None);
        from = j + 1;
    }
    let configured = configured_ports(&c, &excluded);
    for (p, _) in forwards_to_stop(&m, &listening, &configured) {
        m.stop_forward(p);
    }
    let mut left = m.active_remote_ports();
    left.sort();
    assert_eq!(left, vec![3000, 8080]);
}
