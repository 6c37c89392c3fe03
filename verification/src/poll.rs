//! The decisions of one poll cycle: which configured ports to start
//! forwarding, which active forwards to tear down, and what to report.
use std::collections::HashSet;
use vstd::prelude::*;

use crate::config::{Config, PortMapping};
use crate::events::{AppEvent, LogLevel};
use crate::forward::{ActiveForward, ForwardManager};
use crate::text::{decimal, push_decimal, push_str};

verus! {

broadcast use vstd::std_specs::hash::group_hash_axioms;

/// The command run on the remote host to list its listening TCP ports:
/// `ss`, or `netstat` where `ss` is missing.
pub fn discovery_command() -> (c: &'static str)
    ensures
        c@ == "ss -tlnp 2>/dev/null || netstat -tlnp 2>/dev/null"@,
{
    "ss -tlnp 2>/dev/null || netstat -tlnp 2>/dev/null"
}

/// The remote ports listed in the configuration and not excluded.
pub open spec fn configured(ports: Seq<PortMapping>, excluded: Set<u16>) -> Set<u16> {
    Set::new(
        |p: u16|
            (exists|i: int| 0 <= i < ports.len() && (#[trigger] ports[i]).remote_port == p)
                && !excluded.contains(p),
    )
}

/// The local port to start forwarding `mapping` to, if it should start now:
/// when its remote port is not excluded, is listening, and is not already
/// forwarded.
pub open spec fn start_decision(
    active: Map<u16, ActiveForward>,
    mapping: PortMapping,
    excluded: Set<u16>,
    listening: Set<u16>,
) -> Option<u16> {
    let p = mapping.remote_port;
    if excluded.contains(p) || !listening.contains(p) || active.contains_key(p) {
        None
    } else {
        Some(
            match mapping.local_port {
                Some(l) => l,
                None => p,
            },
        )
    }
}

/// Why an active forward is torn down.
#[derive(Debug, Clone, Copy, PartialEq, Eq, Structural)]
pub enum StopReason {
    /// The remote port stopped listening.
    NoLongerListening,
    /// The port is no longer configured (or is excluded).
    RemovedFromConfig,
}

/// Whether, and why, the active forward of `port` is torn down.
pub open spec fn stop_decision(port: u16, listening: Set<u16>, configured: Set<u16>) -> Option<
    StopReason,
> {
    if !listening.contains(port) {
        Some(StopReason::NoLongerListening)
    } else if !configured.contains(port) {
        Some(StopReason::RemovedFromConfig)
    } else {
        None
    }
}

pub open spec fn reason_text(r: StopReason) -> Seq<char> {
    match r {
        StopReason::NoLongerListening => "remote port no longer listening"@,
        StopReason::RemovedFromConfig => "removed from config"@,
    }
}

impl StopReason {
    /// The reason as the log states it.
    pub fn text(&self) -> (t: &'static str)
        ensures
            t@ == reason_text(*self),
    {
        match self {
            StopReason::NoLongerListening => "remote port no longer listening",
            StopReason::RemovedFromConfig => "removed from config",
        }
    }
}

/// Whether the tear-down list `r` holds `port`.
pub open spec fn plans_port(r: Seq<(u16, StopReason)>, port: u16) -> bool {
    exists|k: int| 0 <= k < r.len() && (#[trigger] r[k]).0 == port
}

/// Whether one of the first `n` ports of `active` is `port`, to be torn down.
spec fn stops_in_prefix(
    active: Seq<u16>,
    n: int,
    port: u16,
    listening: Set<u16>,
    configured: Set<u16>,
) -> bool {
    (exists|k: int| 0 <= k < n && (#[trigger] active[k]) == port) && stop_decision(
        port,
        listening,
        configured,
    ) is Some
}

/// The set of configured remote ports that are not excluded.
pub fn configured_ports(cfg: &Config, excluded: &HashSet<u16>) -> (s: HashSet<u16>)
    ensures
        s@ == configured(cfg.ports@, excluded@),
{
    let mut s: HashSet<u16> = HashSet::new();
    let mut i: usize = 0;
    while i < cfg.ports.len()
        invariant
            i <= cfg.ports@.len(),
            s@ == configured(cfg.ports@.take(i as int), excluded@),
        decreases cfg.ports@.len() - i,
    {
        let p = cfg.ports[i].remote_port;
        let ghost before = s@;
        if !excluded.contains(&p) {
            s.insert(p);
        }
        proof {
            let t = cfg.ports@.take(i + 1);
            let u = cfg.ports@.take(i as int);
            assert forall|q: u16| #[trigger] s@.contains(q) <==> configured(t, excluded@).contains(q) by {
                if exists|k: int| 0 <= k < u.len() && (#[trigger] u[k]).remote_port == q {
                    let k = choose|k: int| 0 <= k < u.len() && (#[trigger] u[k]).remote_port == q;
                    assert(t[k].remote_port == q);
                }
                if exists|k: int| 0 <= k < t.len() && (#[trigger] t[k]).remote_port == q {
                    let k = choose|k: int| 0 <= k < t.len() && (#[trigger] t[k]).remote_port == q;
                    if k < i {
                        assert(u[k].remote_port == q);
                    }
                }
                assert(t[i as int].remote_port == p);
            }
            assert(s@ =~= configured(t, excluded@));
        }
        i = i + 1;
    }
    assert(cfg.ports@.take(i as int) =~= cfg.ports@);
    s
}

/// The local port to start forwarding `mapping` to now, if any (see
/// [`start_decision`]).
pub fn port_to_start(
    manager: &ForwardManager,
    mapping: &PortMapping,
    excluded: &HashSet<u16>,
    listening: &HashSet<u16>,
) -> (r: Option<u16>)
    ensures
        r == start_decision(manager@, *mapping, excluded@, listening@),
{
    let p = mapping.remote_port;
    if excluded.contains(&p) || !listening.contains(&p) {
        return None;
    }
    if manager.is_active(p) {
        return None;
    }
    Some(mapping.preferred_local_port())
}

/// The next mapping of the configuration, at index `from` or after it, whose
/// forward should start now: `(j, port)` for the first such index `j` and the
/// local port to try (see [`start_decision`]), or `None` when there is none.
pub fn next_start(
    manager: &ForwardManager,
    cfg: &Config,
    excluded: &HashSet<u16>,
    listening: &HashSet<u16>,
    from: usize,
) -> (r: Option<(usize, u16)>)
    ensures
        match r {
            Some((j, l)) => {
                &&& from <= j < cfg.ports@.len()
                &&& start_decision(manager@, cfg.ports@[j as int], excluded@, listening@) == Some(l)
                &&& forall|k: int|
                    from <= k < j ==> start_decision(
                        manager@,
                        #[trigger] cfg.ports@[k],
                        excluded@,
                        listening@,
                    ) is None
            },
            None => forall|k: int|
                from <= k < cfg.ports@.len() ==> start_decision(
                    manager@,
                    #[trigger] cfg.ports@[k],
                    excluded@,
                    listening@,
                ) is None,
        },
{
    let mut j = from;
    while j < cfg.ports.len()
        invariant
            from <= j,
            j <= cfg.ports@.len() || j == from,
            forall|k: int|
                from <= k < j ==> start_decision(
                    manager@,
                    #[trigger] cfg.ports@[k],
                    excluded@,
                    listening@,
                ) is None,
        decreases cfg.ports@.len() - j,
    {
        if let Some(l) = port_to_start(manager, &cfg.ports[j], excluded, listening) {
            return Some((j, l));
        }
        j = j + 1;
    }
    None
}

/// The active forwards to tear down, each once, with the reason (see
/// [`stop_decision`]), in no particular order.
pub fn forwards_to_stop(
    manager: &ForwardManager,
    listening: &HashSet<u16>,
    configured: &HashSet<u16>,
) -> (r: Vec<(u16, StopReason)>)
    ensures
        forall|p: u16|
            #[trigger] plans_port(r@, p) <==> (manager@.contains_key(p) && stop_decision(
                p,
                listening@,
                configured@,
            ) is Some),
        forall|i: int|
            0 <= i < r@.len() ==> Some((#[trigger] r@[i]).1) == stop_decision(
                r@[i].0,
                listening@,
                configured@,
            ),
        forall|i: int, j: int|
            0 <= i < r@.len() && 0 <= j < r@.len() && i != j ==> (#[trigger] r@[i]).0
                != (#[trigger] r@[j]).0,
{
    let active = manager.active_remote_ports();
    let mut r: Vec<(u16, StopReason)> = Vec::new();
    let mut i: usize = 0;
    while i < active.len()
        invariant
            i <= active@.len(),
            active@.to_set() == manager@.dom(),
            active@.no_duplicates(),
            forall|p: u16|
                #[trigger] plans_port(r@, p) <==> stops_in_prefix(
                    active@,
                    i as int,
                    p,
                    listening@,
                    configured@,
                ),
            forall|k: int|
                0 <= k < r@.len() ==> Some((#[trigger] r@[k]).1) == stop_decision(
                    r@[k].0,
                    listening@,
                    configured@,
                ),
            forall|a: int, b: int|
                0 <= a < r@.len() && 0 <= b < r@.len() && a != b ==> (#[trigger] r@[a]).0
                    != (#[trigger] r@[b]).0,
        decreases active@.len() - i,
    {
        let p = active[i];
        let ghost before = r@;
        if !listening.contains(&p) {
            r.push((p, StopReason::NoLongerListening));
        } else if !configured.contains(&p) {
            r.push((p, StopReason::RemovedFromConfig));
        }
        proof {
            assert forall|q: u16|
                #[trigger] plans_port(r@, q) <==> stops_in_prefix(
                    active@,
                    i + 1,
                    q,
                    listening@,
                    configured@,
                ) by {
                if plans_port(r@, q) {
                    let k = choose|k: int| 0 <= k < r@.len() && (#[trigger] r@[k]).0 == q;
                    if k < before.len() {
                        assert(plans_port(before, q));
                    } else {
                        assert(active@[i as int] == q);
                    }
                }
                if stops_in_prefix(active@, i + 1, q, listening@, configured@) {
                    let k = choose|k: int| 0 <= k < i + 1 && (#[trigger] active@[k]) == q;
                    if k < i {
                        assert(stops_in_prefix(active@, i as int, q, listening@, configured@));
                        assert(plans_port(before, q));
                        let j = choose|j: int| 0 <= j < before.len() && (#[trigger] before[j]).0 == q;
                        assert(r@[j].0 == q);
                    } else {
                        assert(r@[r@.len() - 1].0 == q);
                    }
                }
            }
            if r@.len() > before.len() {
                assert forall|k: int| 0 <= k < before.len() implies before[k].0 != p by {
                    let q = before[k].0;
                    assert(plans_port(before, q));
                    assert(stops_in_prefix(active@, i as int, q, listening@, configured@));
                    let kk = choose|kk: int| 0 <= kk < i && (#[trigger] active@[kk]) == q;
                    assert(active@[kk] != active@[i as int]);
                }
            }
        }
        i = i + 1;
    }
    proof {
        assert forall|p: u16|
            #[trigger] plans_port(r@, p) <==> (manager@.contains_key(p) && stop_decision(
                p,
                listening@,
                configured@,
            ) is Some) by {
            if manager@.contains_key(p) {
                assert(active@.to_set().contains(p));
                let k = choose|k: int| 0 <= k < active@.len() && active@[k] == p;
                assert(active@[k] == p);
            }
            if stops_in_prefix(active@, i as int, p, listening@, configured@) {
                let k = choose|k: int| 0 <= k < i && (#[trigger] active@[k]) == p;
                assert(active@.contains(p));
                assert(active@.to_set().contains(p));
            }
        }
    }
    r
}


// ── Laws ─────────────────────────────────────────────────────────────────────

/// A forward starts exactly for a configured port that is not excluded, is
/// listening on the remote host, and is not already forwarded; an excluded
/// port is never forwarded, even if the configuration lists it.
pub proof fn law_start_decision(
    active: Map<u16, ActiveForward>,
    mapping: PortMapping,
    excluded: Set<u16>,
    listening: Set<u16>,
)
    ensures
        start_decision(active, mapping, excluded, listening) is Some ==> {
            &&& !excluded.contains(mapping.remote_port)
            &&& listening.contains(mapping.remote_port)
            &&& !active.contains_key(mapping.remote_port)
        },
        excluded.contains(mapping.remote_port) ==> start_decision(
            active,
            mapping,
            excluded,
            listening,
        ) is None,
        !excluded.contains(mapping.remote_port) && listening.contains(mapping.remote_port)
            && !active.contains_key(mapping.remote_port) ==> start_decision(
            active,
            mapping,
            excluded,
            listening,
        ) is Some,
{
}

/// Port mapping is 1:1 by default: without a `local_port`, the forward's
/// local port is tried as the remote port itself.
pub proof fn law_one_to_one_by_default(
    active: Map<u16, ActiveForward>,
    mapping: PortMapping,
    excluded: Set<u16>,
    listening: Set<u16>,
)
    requires
        mapping.local_port is None,
    ensures
        start_decision(active, mapping, excluded, listening) matches Some(l) ==> l
            == mapping.remote_port,
{
}

/// A forward that starts goes to the local port that its mapping gives, and
/// to the remote port itself when the mapping gives none.
pub proof fn law_start_uses_configured_local_port(
    active: Map<u16, ActiveForward>,
    mapping: PortMapping,
    excluded: Set<u16>,
    listening: Set<u16>,
)
    ensures
        start_decision(active, mapping, excluded, listening) is Some ==> {
            &&& (mapping.local_port matches Some(l) ==> start_decision(
                active,
                mapping,
                excluded,
                listening,
            ) == Some(l))
            &&& (mapping.local_port is None ==> start_decision(
                active,
                mapping,
                excluded,
                listening,
            ) == Some(mapping.remote_port))
        },
{
}

/// Every mapping's remote port is configured unless it is excluded, and a
/// configured port is the remote port of some mapping and is not excluded.
pub proof fn law_configured_ports(ports: Seq<PortMapping>, excluded: Set<u16>, p: u16)
    ensures
        forall|i: int|
            0 <= i < ports.len() && !excluded.contains(#[trigger] ports[i].remote_port)
                ==> configured(ports, excluded).contains(ports[i].remote_port),
        configured(ports, excluded).contains(p) ==> !excluded.contains(p) && exists|i: int|
            0 <= i < ports.len() && (#[trigger] ports[i]).remote_port == p,
{
    assert forall|i: int|
        0 <= i < ports.len() && !excluded.contains(#[trigger] ports[i].remote_port)
            implies configured(ports, excluded).contains(ports[i].remote_port) by {
        assert(ports[i].remote_port == ports[i].remote_port);
    }
}

/// Excluded ports are never among the configured ports.
pub proof fn law_excluded_not_configured(ports: Seq<PortMapping>, excluded: Set<u16>, p: u16)
    requires
        excluded.contains(p),
    ensures
        !configured(ports, excluded).contains(p),
{
}

/// After the forwards that a poll finds unwanted are torn down, exactly the
/// active forwards of ports that are still listening and still configured
/// remain.
pub proof fn law_teardown_leaves_wanted(
    active: Map<u16, ActiveForward>,
    listening: Set<u16>,
    configured: Set<u16>,
)
    ensures
        ({
            let stopped = Set::new(|p: u16| stop_decision(p, listening, configured) is Some);
            let remaining = active.remove_keys(stopped);
            forall|p: u16|
                #[trigger] remaining.contains_key(p) <==> (active.contains_key(p) && listening.contains(
                    p,
                ) && configured.contains(p))
        }),
{
}

/// The remote ports forwarded after the starts of a poll cycle, going through
/// `ports` from index `i` on, when every start succeeds: a forward starts for
/// each mapping whose port is not excluded, is listening and is not yet
/// forwarded, as [`start_decision`] decides.
pub open spec fn ports_after_starts(
    active: Set<u16>,
    ports: Seq<PortMapping>,
    i: int,
    excluded: Set<u16>,
    listening: Set<u16>,
) -> Set<u16>
    decreases ports.len() - i,
{
    if 0 <= i < ports.len() {
        let p = ports[i].remote_port;
        let next = if !excluded.contains(p) && listening.contains(p) && !active.contains(p) {
            active.insert(p)
        } else {
            active
        };
        ports_after_starts(next, ports, i + 1, excluded, listening)
    } else {
        active
    }
}

/// The starts from index `i` on add to `active` exactly the ports of the
/// mappings there that are not excluded and are listening.
pub proof fn lemma_ports_after_starts(
    active: Set<u16>,
    ports: Seq<PortMapping>,
    i: int,
    excluded: Set<u16>,
    listening: Set<u16>,
)
    requires
        0 <= i <= ports.len(),
    ensures
        forall|p: u16|
            #[trigger] ports_after_starts(active, ports, i, excluded, listening).contains(p) <==> (
            active.contains(p) || (!excluded.contains(p) && listening.contains(p) && exists|k: int|
                i <= k < ports.len() && (#[trigger] ports[k]).remote_port == p)),
    decreases ports.len() - i,
{
    if i < ports.len() {
        let q = ports[i].remote_port;
        let next = if !excluded.contains(q) && listening.contains(q) && !active.contains(q) {
            active.insert(q)
        } else {
            active
        };
        lemma_ports_after_starts(next, ports, i + 1, excluded, listening);
        assert(ports_after_starts(active, ports, i, excluded, listening) == ports_after_starts(
            next,
            ports,
            i + 1,
            excluded,
            listening,
        ));
        assert forall|p: u16|
            #[trigger] ports_after_starts(active, ports, i, excluded, listening).contains(p) <==> (
            active.contains(p) || (!excluded.contains(p) && listening.contains(p) && exists|k: int|
                i <= k < ports.len() && (#[trigger] ports[k]).remote_port == p)) by {
            assert(ports_after_starts(next, ports, i + 1, excluded, listening).contains(p) <==> (
            next.contains(p) || (!excluded.contains(p) && listening.contains(p) && exists|k: int|
                i + 1 <= k < ports.len() && (#[trigger] ports[k]).remote_port == p)));
            if exists|k: int| i + 1 <= k < ports.len() && (#[trigger] ports[k]).remote_port == p {
                let k = choose|k: int| i + 1 <= k < ports.len() && (#[trigger] ports[k]).remote_port == p;
                assert(i <= k < ports.len() && ports[k].remote_port == p);
            }
            if exists|k: int| i <= k < ports.len() && (#[trigger] ports[k]).remote_port == p {
                let k = choose|k: int| i <= k < ports.len() && (#[trigger] ports[k]).remote_port == p;
                if k > i {
                    assert(i + 1 <= k < ports.len() && ports[k].remote_port == p);
                }
            }
        }
    }
}

/// A poll cycle reaches the wanted forwards: when every forward that the
/// cycle starts does start, and the forwards it then finds unwanted are torn
/// down, exactly the configured, non-excluded ports that listen on the remote
/// host are forwarded, whatever was forwarded before the cycle.
pub proof fn law_cycle_reaches_wanted(
    active: Set<u16>,
    ports: Seq<PortMapping>,
    excluded: Set<u16>,
    listening: Set<u16>,
)
    ensures
        ({
            let started = ports_after_starts(active, ports, 0, excluded, listening);
            let stopped = Set::new(
                |p: u16| stop_decision(p, listening, configured(ports, excluded)) is Some,
            );
            started.difference(stopped) == configured(ports, excluded).intersect(listening)
        }),
{
    let started = ports_after_starts(active, ports, 0, excluded, listening);
    let stopped = Set::new(|p: u16| stop_decision(p, listening, configured(ports, excluded)) is Some);
    lemma_ports_after_starts(active, ports, 0, excluded, listening);
    assert forall|p: u16|
        #[trigger] started.difference(stopped).contains(p) <==> configured(
            ports,
            excluded,
        ).intersect(listening).contains(p) by {
        if configured(ports, excluded).contains(p) {
            let k = choose|k: int| 0 <= k < ports.len() && (#[trigger] ports[k]).remote_port == p;
            assert(0 <= k < ports.len() && ports[k].remote_port == p);
        }
    }
    assert(started.difference(stopped) =~= configured(ports, excluded).intersect(listening));
}

/// Whether `e` is a log message of level `level` saying `message`.
pub open spec fn is_log(e: AppEvent, level: LogLevel, message: Seq<char>) -> bool {
    &&& e matches AppEvent::Log { level: l, message: m }
    &&& l == level
    &&& m@ == message
}

/// The report that the forward of `port` was torn down for `reason`.
pub fn stopped_event(port: u16, reason: StopReason) -> (e: AppEvent)
    ensures
        e matches AppEvent::ForwardStopped { remote_port, reason: t } && remote_port == port && t@
            == reason_text(reason),
{
    let mut t = String::new();
    push_str(&mut t, reason.text());
    AppEvent::ForwardStopped { remote_port: port, reason: t }
}

/// The report that no local port could be found for `port`.
pub fn resolve_failed_event(port: u16, detail: &str) -> (e: AppEvent)
    ensures
        is_log(
            e,
            LogLevel::Error,
            "cannot resolve local port for :"@ + decimal(port as nat) + ": "@ + detail@,
        ),
{
    let mut t = String::new();
    push_str(&mut t, "cannot resolve local port for :");
    push_decimal(&mut t, port as u64);
    push_str(&mut t, ": ");
    push_str(&mut t, detail);
    AppEvent::Log { level: LogLevel::Error, message: t }
}

/// The report that the `ssh -L` process for `port` could not be started.
pub fn start_failed_event(port: u16, detail: &str) -> (e: AppEvent)
    ensures
        is_log(
            e,
            LogLevel::Error,
            "failed to start forward :"@ + decimal(port as nat) + ": "@ + detail@,
        ),
{
    let mut t = String::new();
    push_str(&mut t, "failed to start forward :");
    push_decimal(&mut t, port as u64);
    push_str(&mut t, ": ");
    push_str(&mut t, detail);
    AppEvent::Log { level: LogLevel::Error, message: t }
}

/// The warnings given when the daemon starts: that nothing is configured to
/// be forwarded, and, on Windows, that the ControlPath socket is not used.
pub open spec fn startup_messages(no_ports: bool, windows_control_path: bool) -> Seq<Seq<char>> {
    (if no_ports {
        seq!["no [[ports]] in .port-shadow.toml — nothing to forward"@]
    } else {
        Seq::empty()
    }) + (if windows_control_path {
        seq!["ControlPath is not supported on Windows; using fresh SSH connections"@]
    } else {
        Seq::empty()
    })
}

/// The warnings to report when the daemon starts with `cfg`.
pub fn startup_events(cfg: &Config, windows: bool) -> (r: Vec<AppEvent>)
    ensures
        r@.len() == startup_messages(
            cfg.ports@.len() == 0,
            windows && cfg.ssh.control_path is Some,
        ).len(),
        forall|i: int|
            0 <= i < r@.len() ==> is_log(
                #[trigger] r@[i],
                LogLevel::Warn,
                startup_messages(cfg.ports@.len() == 0, windows && cfg.ssh.control_path is Some)[i],
            ),
{
    let mut r: Vec<AppEvent> = Vec::new();
    let ghost msgs = startup_messages(
        cfg.ports@.len() == 0,
        windows && cfg.ssh.control_path is Some,
    );
    if cfg.ports.len() == 0 {
        let mut t = String::new();
        push_str(&mut t, "no [[ports]] in .port-shadow.toml — nothing to forward");
        r.push(AppEvent::Log { level: LogLevel::Warn, message: t });
    }
    if windows && cfg.ssh.control_path.is_some() {
        let mut t = String::new();
        push_str(&mut t, "ControlPath is not supported on Windows; using fresh SSH connections");
        r.push(AppEvent::Log { level: LogLevel::Warn, message: t });
    }
    r
}

} // verus!
