//! The order of the network steps on macOS, as a state machine: the caller
//! performs each action that `MacFlow::step` returns and reports its outcome
//! as the next event, until the flow finishes.
//!
//! Applying first undoes what a previous run left and reads the physical
//! gateway. It saves the state before its first change and again before
//! each change that the saved state does not yet record, so that the
//! machine can be put back as it was even after a crash. It then routes the
//! server outside the tunnel and both halves of IPv4 into it, sets DNS and
//! switches IPv6 off service by service, and arms the firewall last. When a
//! step is refused, everything is put back and the saved state removed.
//! Rebinding moves the routes and the firewall rules to a new interface
//! without ever lifting the firewall.

use vstd::prelude::*;

use crate::config::string_views;
use crate::linux_flow::Operation;
use crate::net_macos::{
    anchor_name, anchor_rules, endpoint_ip, endpoint_port, network_services, patched_pf_conf,
    pf_was_enabled, physical_route, previous_ipv6, push_route_removal, revert_steps,
    route_removal_steps, rules_loaded, run, run_step, service_view, set_dns_args,
    spec_anchor_rules, spec_endpoint_ip, spec_endpoint_port, spec_network_services,
    spec_patched_pf_conf, spec_pf_was_enabled, spec_physical_route, spec_previous_ipv6,
    spec_revert_steps, spec_rules_loaded, step_views, strs1, strs2, strs3, strs4, strs5, strs6,
    ipv6_manual, spec_ipv6_manual, state_file, Applied, AppliedView, Service, ServiceView, Step,
    StepView,
};
use crate::text::{chars_of, push_str, spec_contains, string_of};

verus! {

/// What the caller is asked to do next.
pub enum Action {
    /// Read the saved state; answer `Event::Loaded`.
    LoadState,
    /// Make these changes in order, ignoring their failures; answer `Event::Done`.
    Perform { steps: Vec<Step> },
    /// Run a program; answer `Event::Output` with what it printed, or its
    /// error output when it failed.
    Run { program: String, args: Vec<String> },
    /// Read a service's resolvers (`networksetup -getdnsservers`), keeping the
    /// lines that are IP addresses; answer `Event::Dns`.
    ReadDns { service: String },
    /// Write the firewall anchor file, creating its folder first when
    /// `make_dir`; answer `Event::Outcome`.
    WriteAnchor { rules: String, make_dir: bool },
    /// Read `/etc/pf.conf`; answer `Event::Output`.
    ReadPfConf,
    /// Keep `content` as the backup of `/etc/pf.conf` unless a backup is
    /// already there; answer `Event::Done`.
    BackUpPfConf { content: String },
    /// Write `/etc/pf.conf`; answer `Event::Outcome`.
    WritePfConf { content: String },
    /// Save the applied state; answer `Event::Done`.
    SaveState { state: Applied },
    /// The flow is over.
    Finish { result: Result<(), String> },
}

pub enum ActionView {
    LoadState,
    Perform { steps: Seq<StepView> },
    Run { program: Seq<char>, args: Seq<Seq<char>> },
    ReadDns { service: Seq<char> },
    WriteAnchor { rules: Seq<char>, make_dir: bool },
    ReadPfConf,
    BackUpPfConf { content: Seq<char> },
    WritePfConf { content: Seq<char> },
    SaveState { state: AppliedView },
    Finish { result: Result<(), Seq<char>> },
}

impl View for Action {
    type V = ActionView;

    open spec fn view(&self) -> ActionView {
        match self {
            Action::LoadState => ActionView::LoadState,
            Action::Perform { steps } => ActionView::Perform { steps: step_views(steps@) },
            Action::Run { program, args } => ActionView::Run {
                program: program@,
                args: string_views(args@),
            },
            Action::ReadDns { service } => ActionView::ReadDns { service: service@ },
            Action::WriteAnchor { rules, make_dir } => ActionView::WriteAnchor {
                rules: rules@,
                make_dir: *make_dir,
            },
            Action::ReadPfConf => ActionView::ReadPfConf,
            Action::BackUpPfConf { content } => ActionView::BackUpPfConf { content: content@ },
            Action::WritePfConf { content } => ActionView::WritePfConf { content: content@ },
            Action::SaveState { state } => ActionView::SaveState { state: state@ },
            Action::Finish { result } => ActionView::Finish {
                result: match result {
                    Ok(()) => Ok(()),
                    Err(m) => Err(m@),
                },
            },
        }
    }
}

/// What the caller reports after performing an action.
pub enum Event {
    /// The flow is started.
    Begin,
    Loaded(Option<Applied>),
    Done,
    Output(Result<String, String>),
    Dns(Vec<String>),
    Outcome(Result<(), String>),
}

pub enum EventView {
    Begin,
    Loaded(Option<AppliedView>),
    Done,
    Output(Result<Seq<char>, Seq<char>>),
    Dns(Seq<Seq<char>>),
    Outcome(Result<(), Seq<char>>),
}

impl View for Event {
    type V = EventView;

    open spec fn view(&self) -> EventView {
        match self {
            Event::Begin => EventView::Begin,
            Event::Loaded(a) => EventView::Loaded(
                match a {
                    Some(x) => Some(x@),
                    None => None,
                },
            ),
            Event::Done => EventView::Done,
            Event::Output(r) => EventView::Output(
                match r {
                    Ok(o) => Ok(o@),
                    Err(m) => Err(m@),
                },
            ),
            Event::Dns(d) => EventView::Dns(string_views(d@)),
            Event::Outcome(r) => EventView::Outcome(
                match r {
                    Ok(()) => Ok(()),
                    Err(m) => Err(m@),
                },
            ),
        }
    }
}

/// The action a flow last asked for.
#[derive(Clone, Copy, PartialEq, Eq, Structural)]
pub enum Phase {
    Start,
    Loading,
    /// Undoing a previous run before applying.
    Cleaning,
    /// Undoing a run.
    Reverting,
    /// Removing the routes of the run being rebound.
    Unrouting,
    ReadingRoute,
    AddingHost,
    AddingLow,
    AddingHigh,
    /// Saving the state before the first change.
    SavingStart,
    Listing,
    ReadingDns,
    ReadingInfo,
    /// Saving the state with the current service's settings recorded.
    SavingService,
    /// Setting DNS and IPv6 of the current service.
    Switching,
    Anchoring,
    ReadingPf,
    BackingUp,
    Patching,
    Probing,
    /// Saving the state with whether pf was on recorded.
    SavingPf,
    Enabling,
    Reloading,
    Checking,
    /// Reloading pf with the rules of the new interface.
    Refreshing,
    Saving,
    /// Putting everything back after a refused step.
    Unwinding,
    Done,
}

/// A network operation in progress.
pub struct MacFlow {
    pub operation: Operation,
    pub iface: String,
    pub endpoint: String,
    /// The resolvers to set on each service.
    pub dns: Vec<String>,
    /// The physical gateway, once read.
    pub gateway: String,
    /// The network services, once listed.
    pub names: Vec<String>,
    /// The service being handled.
    pub index: usize,
    /// The current service's resolvers, once read.
    pub current_dns: Vec<String>,
    /// The services' settings: recorded while applying, kept while rebinding.
    pub services: Vec<Service>,
    /// pf was off before: switched off again on revert.
    pub pf_enabled_by_us: bool,
    /// `/etc/pf.conf` as read.
    pub pf_conf: String,
    /// The error reported once the routes are taken back.
    pub failure: String,
    pub phase: Phase,
}

#[verifier::ext_equal]
pub struct FlowView {
    pub operation: Operation,
    pub iface: Seq<char>,
    pub endpoint: Seq<char>,
    pub dns: Seq<Seq<char>>,
    pub gateway: Seq<char>,
    pub names: Seq<Seq<char>>,
    pub index: int,
    pub current_dns: Seq<Seq<char>>,
    pub services: Seq<ServiceView>,
    pub pf_enabled_by_us: bool,
    pub pf_conf: Seq<char>,
    pub failure: Seq<char>,
    pub phase: Phase,
}

impl View for MacFlow {
    type V = FlowView;

    open spec fn view(&self) -> FlowView {
        FlowView {
            operation: self.operation,
            iface: self.iface@,
            endpoint: self.endpoint@,
            dns: string_views(self.dns@),
            gateway: self.gateway@,
            names: string_views(self.names@),
            index: self.index as int,
            current_dns: string_views(self.current_dns@),
            services: Seq::new(self.services@.len(), |i: int| service_view(self.services@[i])),
            pf_enabled_by_us: self.pf_enabled_by_us,
            pf_conf: self.pf_conf@,
            failure: self.failure@,
            phase: self.phase,
        }
    }
}

/// Whether `e` answers the action that a flow in phase `p` asked for.
pub open spec fn fits(p: Phase, e: EventView) -> bool {
    match p {
        Phase::Start => e is Begin,
        Phase::Loading => e is Loaded,
        Phase::Cleaning | Phase::Reverting | Phase::Unrouting | Phase::SavingStart
        | Phase::SavingService | Phase::Switching | Phase::BackingUp | Phase::SavingPf
        | Phase::Saving | Phase::Unwinding => e is Done,
        Phase::ReadingDns => e is Dns,
        Phase::Anchoring | Phase::Patching => e is Outcome,
        Phase::Done => false,
        _ => e is Output,
    }
}

/// The service being handled is one of those listed.
pub open spec fn well_formed(f: FlowView) -> bool {
    (f.phase == Phase::ReadingDns || f.phase == Phase::ReadingInfo || f.phase == Phase::SavingService
        || f.phase == Phase::Switching) ==> 0 <= f.index < f.names.len()
}

/// The flow in `phase`, asking for `a`.
pub open spec fn go(f: FlowView, phase: Phase, a: ActionView) -> (FlowView, ActionView) {
    (FlowView { phase, ..f }, a)
}

/// The end of the flow.
pub open spec fn finish(f: FlowView, result: Result<(), Seq<char>>) -> (FlowView, ActionView) {
    go(f, Phase::Done, ActionView::Finish { result })
}

/// `route -n get default`
pub open spec fn read_route(f: FlowView) -> (FlowView, ActionView) {
    go(f, Phase::ReadingRoute, ActionView::Run { program: "route"@, args: seq!["-n"@, "get"@, "default"@] })
}

/// Adding the half route `half` through the tunnel interface.
pub open spec fn add_half(f: FlowView, phase: Phase, half: Seq<char>) -> (FlowView, ActionView) {
    go(
        f,
        phase,
        ActionView::Run {
            program: "route"@,
            args: seq!["-n"@, "add"@, "-net"@, half, "-interface"@, f.iface],
        },
    )
}

/// Writing the firewall rules for the tunnel interface and the server.
pub open spec fn arm(f: FlowView, make_dir: bool) -> (FlowView, ActionView) {
    go(
        f,
        Phase::Anchoring,
        ActionView::WriteAnchor {
            rules: spec_anchor_rules(f.iface, spec_endpoint_ip(f.endpoint), spec_endpoint_port(f.endpoint)),
            make_dir,
        },
    )
}

/// The next service's resolvers, or the firewall once every service is done.
pub open spec fn next_service(f: FlowView) -> (FlowView, ActionView) {
    if 0 <= f.index < f.names.len() {
        go(f, Phase::ReadingDns, ActionView::ReadDns { service: f.names[f.index] })
    } else {
        arm(f, true)
    }
}

/// A step of an apply was refused: everything that the saved state records
/// is put back (the firewall, the routes, each service's resolvers and
/// IPv6) and the saved state removed, before the error `m` is reported.
pub open spec fn fail(f: FlowView, m: Seq<char>) -> (FlowView, ActionView) {
    go(
        FlowView { failure: m, ..f },
        Phase::Unwinding,
        ActionView::Perform { steps: spec_revert_steps(applied_now(f)) },
    )
}

/// Adding the route to the server through the physical gateway.
pub open spec fn add_host(f: FlowView) -> (FlowView, ActionView) {
    go(
        f,
        Phase::AddingHost,
        ActionView::Run {
            program: "route"@,
            args: seq!["-n"@, "add"@, "-host"@, spec_endpoint_ip(f.endpoint), f.gateway],
        },
    )
}

/// Saving the state as it now stands, in `phase`.
pub open spec fn save(f: FlowView, phase: Phase) -> (FlowView, ActionView) {
    go(f, phase, ActionView::SaveState { state: applied_now(f) })
}

/// `pfctl -s info`
pub open spec fn probe(f: FlowView) -> (FlowView, ActionView) {
    go(f, Phase::Probing, ActionView::Run { program: "pfctl"@, args: seq!["-s"@, "info"@] })
}

/// The state that a flow saves: what it has read and done so far.
pub open spec fn applied_now(f: FlowView) -> AppliedView {
    AppliedView {
        iface: f.iface,
        endpoint_ip: spec_endpoint_ip(f.endpoint),
        gateway: f.gateway,
        services: f.services,
        pf_enabled_by_us: f.pf_enabled_by_us,
    }
}

/// What a command printed, or nothing when it failed.
pub open spec fn output_or_empty(r: Result<Seq<char>, Seq<char>>) -> Seq<char> {
    match r {
        Ok(o) => o,
        Err(_) => Seq::empty(),
    }
}

/// The DNS and IPv6 changes for service `name`: the tunnel's resolvers when
/// there are any, and IPv6 off, since the node does not carry it.
pub open spec fn switch_steps(dns: Seq<Seq<char>>, name: Seq<char>) -> Seq<StepView> {
    (if dns.len() > 0 {
        seq![run("networksetup"@, seq!["-setdnsservers"@, name] + dns)]
    } else {
        Seq::empty()
    }) + seq![run("networksetup"@, seq!["-setv6off"@, name])]
}

/// The next phase and action of a flow, given the outcome `e` of its last action.
pub open spec fn next(f: FlowView, e: EventView) -> (FlowView, ActionView) {
    match f.phase {
        Phase::Start => go(f, Phase::Loading, ActionView::LoadState),
        Phase::Loading => match e {
            EventView::Loaded(Some(prev)) => match f.operation {
                Operation::Apply => go(
                    f,
                    Phase::Cleaning,
                    ActionView::Perform { steps: spec_revert_steps(prev) },
                ),
                Operation::Revert => go(
                    f,
                    Phase::Reverting,
                    ActionView::Perform { steps: spec_revert_steps(prev) },
                ),
                Operation::Rebind => go(
                    FlowView { services: prev.services, pf_enabled_by_us: prev.pf_enabled_by_us, ..f },
                    Phase::Unrouting,
                    ActionView::Perform { steps: route_removal_steps(prev.iface, prev.endpoint_ip) },
                ),
            },
            _ => match f.operation {
                Operation::Apply => read_route(f),
                Operation::Revert => finish(f, Ok(())),
                Operation::Rebind => finish(f, Err("Aucune protection à rebrancher."@)),
            },
        },
        Phase::Cleaning | Phase::Unrouting => read_route(f),
        Phase::Reverting => finish(f, Ok(())),
        Phase::ReadingRoute => {
            let route = match e {
                EventView::Output(Ok(o)) => spec_physical_route(o),
                EventView::Output(Err(m)) => Err(m),
                _ => Err(Seq::empty()),
            };
            match route {
                Err(m) => finish(f, Err(m)),
                Ok((g, _)) => if f.operation == Operation::Rebind {
                    add_host(FlowView { gateway: g, ..f })
                } else {
                    save(FlowView { gateway: g, ..f }, Phase::SavingStart)
                },
            }
        },
        Phase::SavingStart => add_host(f),
        Phase::AddingHost => match e {
            EventView::Output(Err(m)) => if f.operation == Operation::Rebind {
                finish(f, Err("Route vers le serveur refusée : "@ + m))
            } else {
                fail(f, "Route vers le serveur refusée : "@ + m)
            },
            _ => add_half(f, Phase::AddingLow, "0.0.0.0/1"@),
        },
        Phase::AddingLow | Phase::AddingHigh => match e {
            EventView::Output(Err(m)) => if f.operation == Operation::Rebind {
                finish(f, Err("Routage refusé : "@ + m))
            } else {
                fail(f, "Routage refusé : "@ + m)
            },
            _ => if f.phase == Phase::AddingLow {
                add_half(f, Phase::AddingHigh, "128.0.0.0/1"@)
            } else if f.operation == Operation::Rebind {
                arm(f, false)
            } else {
                go(
                    f,
                    Phase::Listing,
                    ActionView::Run { program: "networksetup"@, args: seq!["-listallnetworkservices"@] },
                )
            },
        },
        Phase::Unwinding => finish(f, Err(f.failure)),
        Phase::Listing => {
            let out = match e {
                EventView::Output(r) => output_or_empty(r),
                _ => Seq::empty(),
            };
            next_service(FlowView { names: spec_network_services(out), index: 0, services: Seq::empty(), ..f })
        },
        Phase::ReadingDns => {
            let d = match e {
                EventView::Dns(d) => d,
                _ => Seq::empty(),
            };
            go(
                FlowView { current_dns: d, ..f },
                Phase::ReadingInfo,
                ActionView::Run { program: "networksetup"@, args: seq!["-getinfo"@, f.names[f.index]] },
            )
        },
        Phase::ReadingInfo => {
            let out = match e {
                EventView::Output(r) => output_or_empty(r),
                _ => Seq::empty(),
            };
            let name = f.names[f.index];
            save(
                FlowView {
                    services: f.services.push(
                        (name, f.current_dns, spec_previous_ipv6(out), spec_ipv6_manual(out)),
                    ),
                    ..f
                },
                Phase::SavingService,
            )
        },
        Phase::SavingService => go(
            f,
            Phase::Switching,
            ActionView::Perform { steps: switch_steps(f.dns, f.names[f.index]) },
        ),
        Phase::Switching => next_service(FlowView { index: f.index + 1, ..f }),
        Phase::Anchoring => match e {
            EventView::Outcome(Err(_)) => if f.operation == Operation::Rebind {
                finish(f, Err("Règles de pare-feu non écrites."@))
            } else {
                fail(f, "Règles de pare-feu non écrites."@)
            },
            _ => if f.operation == Operation::Rebind {
                go(
                    f,
                    Phase::Refreshing,
                    ActionView::Run { program: "pfctl"@, args: seq!["-f"@, "/etc/pf.conf"@] },
                )
            } else {
                go(f, Phase::ReadingPf, ActionView::ReadPfConf)
            },
        },
        Phase::ReadingPf => match e {
            EventView::Output(Ok(c)) => if spec_contains(c, anchor_name()) {
                probe(f)
            } else {
                go(FlowView { pf_conf: c, ..f }, Phase::BackingUp, ActionView::BackUpPfConf { content: c })
            },
            _ => fail(f, "Configuration pf illisible."@),
        },
        Phase::BackingUp => go(
            f,
            Phase::Patching,
            ActionView::WritePfConf { content: spec_patched_pf_conf(f.pf_conf) },
        ),
        Phase::Patching => match e {
            EventView::Outcome(Err(_)) => fail(f, "Configuration pf non modifiable."@),
            _ => probe(f),
        },
        Phase::Probing => {
            let info = match e {
                EventView::Output(r) => r,
                _ => Err(Seq::empty()),
            };
            save(FlowView { pf_enabled_by_us: !spec_pf_was_enabled(info), ..f }, Phase::SavingPf)
        },
        Phase::SavingPf => go(f, Phase::Enabling, ActionView::Run { program: "pfctl"@, args: seq!["-E"@] }),
        Phase::Enabling => go(
            f,
            Phase::Reloading,
            ActionView::Run { program: "pfctl"@, args: seq!["-f"@, "/etc/pf.conf"@] },
        ),
        Phase::Reloading => match e {
            EventView::Output(Err(m)) => fail(f, "Pare-feu refusé : "@ + m),
            _ => go(
                f,
                Phase::Checking,
                ActionView::Run { program: "pfctl"@, args: seq!["-a"@, anchor_name(), "-s"@, "rules"@] },
            ),
        },
        Phase::Checking => {
            let listed = match e {
                EventView::Output(r) => r,
                _ => Err(Seq::empty()),
            };
            if spec_rules_loaded(listed) {
                finish(f, Ok(()))
            } else {
                fail(f, "Le pare-feu n'a pas pris les règles de protection."@)
            }
        },
        Phase::Refreshing => save(f, Phase::Saving),
        Phase::Saving => finish(f, Ok(())),
        Phase::Done => (f, ActionView::Finish { result: Ok(()) }),
    }
}


fn prefixed(prefix: &str, m: &str) -> (r: String)
    ensures
        r@ == prefix@ + m@,
{
    let mut v = chars_of(prefix);
    push_str(&mut v, m);
    string_of(v)
}

fn copy_strings(v: &Vec<String>) -> (r: Vec<String>)
    ensures
        r@ == v@,
{
    let mut r: Vec<String> = Vec::new();
    let mut i: usize = 0;
    while i < v.len()
        invariant
            i <= v@.len(),
            r@ == v@.take(i as int),
        decreases v@.len() - i,
    {
        r.push(v[i].clone());
        proof {
            assert(v@.take(i + 1) =~= v@.take(i as int).push(v@[i as int]));
        }
        i = i + 1;
    }
    proof {
        assert(v@.take(v@.len() as int) =~= v@);
    }
    r
}

fn copy_services(v: &Vec<Service>) -> (r: Vec<Service>)
    ensures
        r@.len() == v@.len(),
        forall|k: int| 0 <= k < r@.len() ==> service_view(#[trigger] r@[k]) == service_view(v@[k]),
{
    let mut r: Vec<Service> = Vec::new();
    let mut i: usize = 0;
    while i < v.len()
        invariant
            i <= v@.len(),
            r@.len() == i,
            forall|k: int| 0 <= k < i ==> service_view(#[trigger] r@[k]) == service_view(v@[k]),
        decreases v@.len() - i,
    {
        let s = &v[i];
        let c = (s.0.clone(), copy_strings(&s.1), s.2.clone(), copy_strings(&s.3));
        proof {
            assert(service_view(c) == service_view(*s));
        }
        r.push(c);
        i = i + 1;
    }
    r
}

impl MacFlow {
    fn new(operation: Operation, iface: &str, endpoint: &str, dns: Vec<String>) -> (r: MacFlow)
        ensures
            r.operation == operation,
            r.iface@ == iface@,
            r.endpoint@ == endpoint@,
            r.dns@ == dns@,
            r.phase == Phase::Start,
            well_formed(r@),
    {
        MacFlow {
            operation,
            iface: iface.to_owned(),
            endpoint: endpoint.to_owned(),
            dns,
            gateway: String::new(),
            names: Vec::new(),
            index: 0,
            current_dns: Vec::new(),
            services: Vec::new(),
            pf_enabled_by_us: false,
            pf_conf: String::new(),
            failure: String::new(),
            phase: Phase::Start,
        }
    }

    fn go(self, phase: Phase, a: Action) -> (r: (MacFlow, Action))
        ensures
            r.0@ == (FlowView { phase, ..self@ }),
            r.1 == a,
    {
        let r = MacFlow { phase, ..self };
        proof {
            assert(r@ =~= FlowView { phase, ..self@ });
        }
        (r, a)
    }

    fn finish(self, result: Result<(), String>) -> (r: (MacFlow, Action))
        ensures
            (r.0@, r.1@) == finish(
                self@,
                match result {
                    Ok(()) => Ok(()),
                    Err(m) => Err(m@),
                },
            ),
    {
        self.go(Phase::Done, Action::Finish { result })
    }

    fn read_route(self) -> (r: (MacFlow, Action))
        ensures
            (r.0@, r.1@) == read_route(self@),
    {
        self.go(Phase::ReadingRoute, Action::Run { program: "route".to_owned(), args: strs3("-n", "get", "default") })
    }

    fn add_half(self, phase: Phase, half: &str) -> (r: (MacFlow, Action))
        ensures
            (r.0@, r.1@) == add_half(self@, phase, half@),
    {
        let args = strs6("-n", "add", "-net", half, "-interface", self.iface.as_str());
        self.go(phase, Action::Run { program: "route".to_owned(), args })
    }

    fn arm(self, make_dir: bool) -> (r: (MacFlow, Action))
        ensures
            (r.0@, r.1@) == arm(self@, make_dir),
    {
        let rules = anchor_rules(
            self.iface.as_str(),
            endpoint_ip(self.endpoint.as_str()).as_str(),
            endpoint_port(self.endpoint.as_str()),
        );
        self.go(Phase::Anchoring, Action::WriteAnchor { rules, make_dir })
    }

    fn next_service(self) -> (r: (MacFlow, Action))
        ensures
            (r.0@, r.1@) == next_service(self@),
            well_formed(r.0@),
    {
        if self.index < self.names.len() {
            let service = self.names[self.index].clone();
            self.go(Phase::ReadingDns, Action::ReadDns { service })
        } else {
            self.arm(true)
        }
    }

    fn fail(self, m: String) -> (r: (MacFlow, Action))
        ensures
            (r.0@, r.1@) == fail(self@, m@),
    {
        let steps = revert_steps(&self.applied_now());
        let f = MacFlow { failure: m, ..self };
        proof {
            assert(f@ =~= FlowView { failure: m@, ..self@ });
        }
        f.go(Phase::Unwinding, Action::Perform { steps })
    }

    fn add_host(self) -> (r: (MacFlow, Action))
        ensures
            (r.0@, r.1@) == add_host(self@),
    {
        let ip = endpoint_ip(self.endpoint.as_str());
        let args = strs5("-n", "add", "-host", ip.as_str(), self.gateway.as_str());
        self.go(Phase::AddingHost, Action::Run { program: "route".to_owned(), args })
    }

    fn save(self, phase: Phase) -> (r: (MacFlow, Action))
        ensures
            (r.0@, r.1@) == save(self@, phase),
    {
        let state = self.applied_now();
        self.go(phase, Action::SaveState { state })
    }

    fn probe(self) -> (r: (MacFlow, Action))
        ensures
            (r.0@, r.1@) == probe(self@),
    {
        self.go(Phase::Probing, Action::Run { program: "pfctl".to_owned(), args: strs2("-s", "info") })
    }

    fn applied_now(&self) -> (r: Applied)
        ensures
            r@ == applied_now(self@),
    {
        let a = Applied {
            iface: self.iface.clone(),
            endpoint_ip: endpoint_ip(self.endpoint.as_str()),
            gateway: self.gateway.clone(),
            services: copy_services(&self.services),
            pf_enabled_by_us: self.pf_enabled_by_us,
        };
        proof {
            assert(a@ =~= applied_now(self@));
        }
        a
    }
}


impl MacFlow {
    fn step_prelude(self, event: Event) -> (r: (MacFlow, Action))
        requires
            self.phase == Phase::Start || self.phase == Phase::Loading || self.phase == Phase::Cleaning
                || self.phase == Phase::Unrouting || self.phase == Phase::Reverting,
            fits(self.phase, event@),
        ensures
            (r.0@, r.1@) == next(self@, event@),
            well_formed(r.0@),
    {
        match self.phase {
            Phase::Start => self.go(Phase::Loading, Action::LoadState),
            Phase::Loading => match event {
                Event::Loaded(Some(prev)) => match self.operation {
                    Operation::Apply => {
                        let steps = revert_steps(&prev);
                        self.go(Phase::Cleaning, Action::Perform { steps })
                    },
                    Operation::Revert => {
                        let steps = revert_steps(&prev);
                        self.go(Phase::Reverting, Action::Perform { steps })
                    },
                    Operation::Rebind => {
                        let mut steps: Vec<Step> = Vec::new();
                        proof {
                            assert(step_views(steps@) =~= Seq::<StepView>::empty());
                        }
                        push_route_removal(&mut steps, prev.iface.as_str(), prev.endpoint_ip.as_str());
                        proof {
                            assert(step_views(steps@) =~= route_removal_steps(prev@.iface, prev@.endpoint_ip));
                        }
                        let f = MacFlow {
                            services: prev.services,
                            pf_enabled_by_us: prev.pf_enabled_by_us,
                            ..self
                        };
                        proof {
                            assert(f@ =~= FlowView {
                                services: prev@.services,
                                pf_enabled_by_us: prev@.pf_enabled_by_us,
                                ..self@
                            });
                        }
                        f.go(Phase::Unrouting, Action::Perform { steps })
                    },
                },
                _ => match self.operation {
                    Operation::Apply => self.read_route(),
                    Operation::Revert => self.finish(Ok(())),
                    Operation::Rebind => self.finish(Err("Aucune protection à rebrancher.".to_owned())),
                },
            },
            Phase::Reverting => self.finish(Ok(())),
            _ => self.read_route(),
        }
    }

    fn step_routes(self, event: Event) -> (r: (MacFlow, Action))
        requires
            self.phase == Phase::ReadingRoute || self.phase == Phase::SavingStart || self.phase
                == Phase::AddingHost || self.phase == Phase::AddingLow || self.phase
                == Phase::AddingHigh || self.phase == Phase::Unwinding,
            fits(self.phase, event@),
        ensures
            (r.0@, r.1@) == next(self@, event@),
            well_formed(r.0@),
    {
        match self.phase {
            Phase::ReadingRoute => {
                let route = match event {
                    Event::Output(Ok(o)) => physical_route(o.as_str()),
                    Event::Output(Err(m)) => Err(m),
                    _ => Err(String::new()),
                };
                match route {
                    Err(m) => self.finish(Err(m)),
                    Ok((g, _)) => {
                        let ghost gv = g@;
                        let f = MacFlow { gateway: g, ..self };
                        proof {
                            assert(f@ =~= FlowView { gateway: gv, ..self@ });
                        }
                        if f.operation == Operation::Rebind {
                            f.add_host()
                        } else {
                            f.save(Phase::SavingStart)
                        }
                    },
                }
            },
            Phase::SavingStart => self.add_host(),
            Phase::AddingHost => match event {
                Event::Output(Err(m)) => {
                    let msg = prefixed("Route vers le serveur refusée : ", m.as_str());
                    if self.operation == Operation::Rebind {
                        self.finish(Err(msg))
                    } else {
                        self.fail(msg)
                    }
                },
                _ => self.add_half(Phase::AddingLow, "0.0.0.0/1"),
            },
            Phase::AddingLow | Phase::AddingHigh => match event {
                Event::Output(Err(m)) => {
                    let msg = prefixed("Routage refusé : ", m.as_str());
                    if self.operation == Operation::Rebind {
                        self.finish(Err(msg))
                    } else {
                        self.fail(msg)
                    }
                },
                _ => if self.phase == Phase::AddingLow {
                    self.add_half(Phase::AddingHigh, "128.0.0.0/1")
                } else if self.operation == Operation::Rebind {
                    self.arm(false)
                } else {
                    self.go(
                        Phase::Listing,
                        Action::Run {
                            program: "networksetup".to_owned(),
                            args: strs1("-listallnetworkservices"),
                        },
                    )
                },
            },
            _ => {
                let m = self.failure.clone();
                self.finish(Err(m))
            },
        }
    }

    fn step_services(self, event: Event) -> (r: (MacFlow, Action))
        requires
            self.phase == Phase::Listing || self.phase == Phase::ReadingDns || self.phase
                == Phase::ReadingInfo || self.phase == Phase::SavingService || self.phase
                == Phase::Switching,
            fits(self.phase, event@),
            well_formed(self@),
        ensures
            (r.0@, r.1@) == next(self@, event@),
            well_formed(r.0@),
    {
        match self.phase {
            Phase::Listing => {
                let ghost out = match event@ {
                    EventView::Output(r) => output_or_empty(r),
                    _ => Seq::empty(),
                };
                let names = match event {
                    Event::Output(Ok(o)) => network_services(o.as_str()),
                    _ => {
                        proof {
                            reveal_strlit("");
                            assert(""@ =~= out);
                        }
                        network_services("")
                    },
                };
                let f = MacFlow { names, index: 0, services: Vec::new(), ..self };
                proof {
                    assert(f@.services =~= Seq::empty());
                    assert(f@ =~= FlowView {
                        names: spec_network_services(out),
                        index: 0,
                        services: Seq::empty(),
                        ..self@
                    });
                }
                f.next_service()
            },
            Phase::ReadingDns => {
                let d = match event {
                    Event::Dns(d) => d,
                    _ => Vec::new(),
                };
                let args = strs2("-getinfo", self.names[self.index].as_str());
                let f = MacFlow { current_dns: d, ..self };
                proof {
                    assert(f@ =~= FlowView { current_dns: string_views(d@), ..self@ });
                }
                f.go(Phase::ReadingInfo, Action::Run { program: "networksetup".to_owned(), args })
            },
            Phase::ReadingInfo => {
                let ghost out = match event@ {
                    EventView::Output(r) => output_or_empty(r),
                    _ => Seq::empty(),
                };
                let (v6, manual) = match event {
                    Event::Output(Ok(o)) => (previous_ipv6(o.as_str()), ipv6_manual(o.as_str())),
                    _ => {
                        proof {
                            reveal_strlit("");
                            assert(""@ =~= out);
                        }
                        (previous_ipv6(""), ipv6_manual(""))
                    },
                };
                assert(v6@ == spec_previous_ipv6(out));
                assert(string_views(manual@) == spec_ipv6_manual(out));
                let name = self.names[self.index].clone();
                let mut services = self.services;
                let ghost before = services@;
                services.push((name, copy_strings(&self.current_dns), v6, manual));
                let f = MacFlow { services, ..self };
                proof {
                    let want = FlowView {
                        services: self@.services.push(
                            (self@.names[self@.index], self@.current_dns, v6@, spec_ipv6_manual(out)),
                        ),
                        ..self@
                    };
                    assert(f@.services =~= want.services);
                    assert(f@ =~= want);
                }
                f.save(Phase::SavingService)
            },
            Phase::SavingService => {
                let name = self.names[self.index].clone();
                let mut steps: Vec<Step> = Vec::new();
                if self.dns.len() > 0 {
                    steps.push(run_step("networksetup", set_dns_args(name.as_str(), &self.dns)));
                }
                steps.push(run_step("networksetup", strs2("-setv6off", name.as_str())));
                proof {
                    assert(step_views(steps@) =~= switch_steps(self@.dns, name@));
                }
                self.go(Phase::Switching, Action::Perform { steps })
            },
            _ => {
                let n = self.names.len();
                assert(self.index < n);
                let f = MacFlow { index: self.index + 1, ..self };
                proof {
                    assert(f@ =~= FlowView { index: self@.index + 1, ..self@ });
                }
                f.next_service()
            },
        }
    }

    fn step_firewall(self, event: Event) -> (r: (MacFlow, Action))
        requires
            self.phase == Phase::Anchoring || self.phase == Phase::ReadingPf || self.phase
                == Phase::BackingUp || self.phase == Phase::Patching || self.phase == Phase::Probing
                || self.phase == Phase::SavingPf || self.phase == Phase::Enabling || self.phase
                == Phase::Reloading || self.phase == Phase::Checking || self.phase
                == Phase::Refreshing || self.phase == Phase::Saving,
            fits(self.phase, event@),
        ensures
            (r.0@, r.1@) == next(self@, event@),
            well_formed(r.0@),
    {
        match self.phase {
            Phase::Anchoring => match event {
                Event::Outcome(Err(_)) => {
                    let m = "Règles de pare-feu non écrites.".to_owned();
                    if self.operation == Operation::Rebind {
                        self.finish(Err(m))
                    } else {
                        self.fail(m)
                    }
                },
                _ => if self.operation == Operation::Rebind {
                    self.go(
                        Phase::Refreshing,
                        Action::Run { program: "pfctl".to_owned(), args: strs2("-f", "/etc/pf.conf") },
                    )
                } else {
                    self.go(Phase::ReadingPf, Action::ReadPfConf)
                },
            },
            Phase::ReadingPf => match event {
                Event::Output(Ok(c)) => {
                    if crate::net_macos::loads_anchor(c.as_str()) {
                        self.probe()
                    } else {
                        let content = c.clone();
                        let f = MacFlow { pf_conf: c, ..self };
                        proof {
                            assert(f@ =~= FlowView { pf_conf: content@, ..self@ });
                        }
                        f.go(Phase::BackingUp, Action::BackUpPfConf { content })
                    }
                },
                _ => self.fail("Configuration pf illisible.".to_owned()),
            },
            Phase::BackingUp => {
                let content = patched_pf_conf(self.pf_conf.as_str());
                self.go(Phase::Patching, Action::WritePfConf { content })
            },
            Phase::Patching => match event {
                Event::Outcome(Err(_)) => self.fail("Configuration pf non modifiable.".to_owned()),
                _ => self.probe(),
            },
            Phase::Probing => {
                let info = match event {
                    Event::Output(r) => r,
                    _ => Err(String::new()),
                };
                let enabled = pf_was_enabled(&info);
                let f = MacFlow { pf_enabled_by_us: !enabled, ..self };
                proof {
                    assert(f@ =~= FlowView { pf_enabled_by_us: !enabled, ..self@ });
                }
                f.save(Phase::SavingPf)
            },
            Phase::SavingPf => self.go(
                Phase::Enabling,
                Action::Run { program: "pfctl".to_owned(), args: strs1("-E") },
            ),
            Phase::Enabling => self.go(
                Phase::Reloading,
                Action::Run { program: "pfctl".to_owned(), args: strs2("-f", "/etc/pf.conf") },
            ),
            Phase::Reloading => match event {
                Event::Output(Err(m)) => {
                    let msg = prefixed("Pare-feu refusé : ", m.as_str());
                    self.fail(msg)
                },
                _ => self.go(
                    Phase::Checking,
                    Action::Run {
                        program: "pfctl".to_owned(),
                        args: strs4("-a", "com.deliriuum.direct", "-s", "rules"),
                    },
                ),
            },
            Phase::Checking => {
                let listed = match event {
                    Event::Output(r) => r,
                    _ => Err(String::new()),
                };
                if rules_loaded(&listed) {
                    self.finish(Ok(()))
                } else {
                    self.fail("Le pare-feu n'a pas pris les règles de protection.".to_owned())
                }
            },
            Phase::Refreshing => self.save(Phase::Saving),
            _ => self.finish(Ok(())),
        }
    }

    /// Performs the step that the outcome `event` of the last action calls for.
    pub fn step(self, event: Event) -> (r: (MacFlow, Action))
        requires
            fits(self.phase, event@),
            well_formed(self@),
        ensures
            (r.0@, r.1@) == next(self@, event@),
            well_formed(r.0@),
    {
        match self.phase {
            Phase::Start | Phase::Loading | Phase::Cleaning | Phase::Unrouting | Phase::Reverting => self.step_prelude(event),
            Phase::ReadingRoute | Phase::SavingStart | Phase::AddingHost | Phase::AddingLow
            | Phase::AddingHigh | Phase::Unwinding => self.step_routes(event),
            Phase::Listing | Phase::ReadingDns | Phase::ReadingInfo | Phase::SavingService
            | Phase::Switching => self.step_services(event),
            _ => self.step_firewall(event),
        }
    }
}

/// Starts diverting all traffic into the tunnel interface `iface`, with the
/// WireGuard server at `endpoint` kept reachable outside the tunnel and the
/// resolvers `dns` set on every network service.
pub fn apply(iface: &str, endpoint: &str, dns: &[String]) -> (r: MacFlow)
    ensures
        r.operation == Operation::Apply,
        r.iface@ == iface@,
        r.endpoint@ == endpoint@,
        r.dns@ == dns@,
        r.phase == Phase::Start,
        well_formed(r@),
{
    let mut d: Vec<String> = Vec::new();
    let mut i: usize = 0;
    while i < dns.len()
        invariant
            i <= dns@.len(),
            d@ == dns@.take(i as int),
        decreases dns@.len() - i,
    {
        d.push(dns[i].clone());
        proof {
            assert(dns@.take(i + 1) =~= dns@.take(i as int).push(dns@[i as int]));
        }
        i = i + 1;
    }
    proof {
        assert(dns@.take(dns@.len() as int) =~= dns@);
    }
    MacFlow::new(Operation::Apply, iface, endpoint, d)
}

/// Starts moving the routing to a new tunnel interface after a change of
/// network or a wake from sleep, without ever lifting the firewall.
pub fn rebind(iface: &str, endpoint: &str) -> (r: MacFlow)
    ensures
        r.operation == Operation::Rebind,
        r.iface@ == iface@,
        r.endpoint@ == endpoint@,
        r.phase == Phase::Start,
        well_formed(r@),
{
    MacFlow::new(Operation::Rebind, iface, endpoint, Vec::new())
}

/// Starts putting the machine back as it was. Nothing is done when nothing
/// was applied; it also clears what an abrupt stop left behind.
pub fn revert() -> (r: MacFlow)
    ensures
        r.operation == Operation::Revert,
        r.phase == Phase::Start,
        well_formed(r@),
{
    MacFlow::new(Operation::Revert, "", "", Vec::new())
}


/// A change that lowers the firewall: putting `/etc/pf.conf` back, removing
/// the anchor file, or `pfctl` flushing rules (`-F`) or disabling pf (`-d`).
pub open spec fn disarming_step(s: StepView) -> bool {
    match s {
        StepView::RestorePfConf => true,
        StepView::RemoveFile { path } => path == crate::net_macos::anchor_file(),
        StepView::Run { program, args } => program == "pfctl"@ && (args.contains("-d"@)
            || args.contains("-F"@)),
    }
}

/// An action that lowers the firewall.
pub open spec fn disarms(a: ActionView) -> bool {
    match a {
        ActionView::Perform { steps } => exists|i: int| 0 <= i < steps.len() && disarming_step(
            #[trigger] steps[i],
        ),
        ActionView::Run { program, args } => disarming_step(StepView::Run { program, args }),
        _ => false,
    }
}

/// The phases that a rebind goes through.
pub open spec fn rebind_phase(p: Phase) -> bool {
    p == Phase::Start || p == Phase::Loading || p == Phase::Unrouting || p == Phase::ReadingRoute
        || p == Phase::AddingHost || p == Phase::AddingLow || p == Phase::AddingHigh || p
        == Phase::Anchoring || p == Phase::Refreshing || p == Phase::Saving || p == Phase::Done
}

/// Every step keeps the operation, the interface, the endpoint and the
/// resolvers, and a flow asks to finish exactly when it is done.
pub proof fn lemma_mac_flow_shape(f: FlowView, e: EventView)
    requires
        fits(f.phase, e),
    ensures
        ({
            let (g, a) = next(f, e);
            &&& g.operation == f.operation
            &&& g.iface == f.iface
            &&& g.endpoint == f.endpoint
            &&& g.dns == f.dns
            &&& (g.phase == Phase::Done <==> a is Finish)
        }),
{
}

/// Rebinding never lowers the firewall: from its first step to its last, no
/// action of a rebind puts `/etc/pf.conf` back, removes the anchor, flushes
/// the rules or disables pf, so that no traffic leaves outside the tunnel
/// while the routes move to the new interface.
pub proof fn lemma_rebind_never_disarms(f: FlowView, e: EventView)
    requires
        f.operation == Operation::Rebind,
        rebind_phase(f.phase),
        fits(f.phase, e),
    ensures
        ({
            let (g, a) = next(f, e);
            &&& g.operation == Operation::Rebind
            &&& rebind_phase(g.phase)
            &&& !disarms(a)
        }),
{
    reveal_strlit("route");
    reveal_strlit("pfctl");
    reveal_strlit("-f");
    reveal_strlit("-d");
    reveal_strlit("-F");
    reveal_strlit("/etc/pf.conf");
    assert("route"@ != "pfctl"@) by {
        assert("route"@[0] != "pfctl"@[0]);
    }
    assert(!seq!["-f"@, "/etc/pf.conf"@].contains("-d"@)) by {
        assert("-f"@[1] != "-d"@[1]);
        assert("/etc/pf.conf"@.len() != "-d"@.len());
        assert(seq!["-f"@, "/etc/pf.conf"@][0] == "-f"@);
        assert(seq!["-f"@, "/etc/pf.conf"@][1] == "/etc/pf.conf"@);
    }
    assert(!seq!["-f"@, "/etc/pf.conf"@].contains("-F"@)) by {
        assert("-f"@[1] != "-F"@[1]);
        assert("/etc/pf.conf"@.len() != "-F"@.len());
        assert(seq!["-f"@, "/etc/pf.conf"@][0] == "-f"@);
        assert(seq!["-f"@, "/etc/pf.conf"@][1] == "/etc/pf.conf"@);
    }
    if let EventView::Loaded(Some(prev)) = e {
        let steps = route_removal_steps(prev.iface, prev.endpoint_ip);
        assert forall|i: int| 0 <= i < steps.len() implies !disarming_step(#[trigger] steps[i]) by {
            assert(steps[i] is Run);
        }
    }
}

/// The phases that an apply goes through.
pub open spec fn apply_phase(p: Phase) -> bool {
    p != Phase::Reverting && p != Phase::Unrouting && p != Phase::Refreshing && p != Phase::Saving
}

/// What a service's settings were, as read from `networksetup -getinfo`
/// (`out`) and its resolvers (`dns`).
pub open spec fn service_read(name: Seq<char>, dns: Seq<Seq<char>>, out: Seq<char>) -> ServiceView {
    (name, dns, spec_previous_ipv6(out), spec_ipv6_manual(out))
}

/// Applying writes the state to disk before any change, and again before
/// each change that the saved state does not yet record, so that a crash at
/// any point leaves enough on disk to put the machine back:
/// - once the gateway is read, the state (no service yet) is saved, and only
///   then is the first route added;
/// - a service's resolvers and IPv6 setting, once read, are saved with it,
///   and only then are they changed;
/// - whether pf was on is saved before pf is switched on.
/// An apply never leaves its own phases.
pub proof fn lemma_apply_saves_before_changes(f: FlowView, e: EventView)
    requires
        f.operation == Operation::Apply,
        apply_phase(f.phase),
        fits(f.phase, e),
    ensures
        apply_phase(next(f, e).0.phase),
        f.phase == Phase::ReadingRoute && next(f, e).0.phase != Phase::Done ==> {
            let (g, a) = next(f, e);
            &&& g.phase == Phase::SavingStart
            &&& g.services == f.services
            &&& a == (ActionView::SaveState { state: applied_now(g) })
        },
        f.phase == Phase::SavingStart ==> next(f, e) == add_host(f),
        f.phase == Phase::ReadingInfo ==> {
            let (g, a) = next(f, e);
            let out = match e {
                EventView::Output(r) => output_or_empty(r),
                _ => Seq::empty(),
            };
            &&& g.phase == Phase::SavingService
            &&& g.services == f.services.push(service_read(f.names[f.index], f.current_dns, out))
            &&& a == (ActionView::SaveState { state: applied_now(g) })
        },
        f.phase == Phase::SavingService ==> next(f, e).1 == (ActionView::Perform {
            steps: switch_steps(f.dns, f.names[f.index]),
        }),
        f.phase == Phase::Probing ==> {
            let (g, a) = next(f, e);
            let info = match e {
                EventView::Output(r) => r,
                _ => Err(Seq::empty()),
            };
            &&& g.phase == Phase::SavingPf
            &&& g.pf_enabled_by_us == !spec_pf_was_enabled(info)
            &&& a == (ActionView::SaveState { state: applied_now(g) })
        },
        f.phase == Phase::SavingPf ==> next(f, e).1 == (ActionView::Run { program: "pfctl"@, args: seq!["-E"@] }),
{
}

/// Applying switches every listed service before arming the firewall: the
/// services are those that `networksetup -listallnetworkservices` lists,
/// taken in order from the first; each keeps its place in the list while
/// its settings are read, saved and switched; after one is switched the next
/// one is read; and the firewall is armed only when the list is empty or
/// its last service has been switched.
pub proof fn lemma_apply_switches_every_service(f: FlowView, e: EventView)
    requires
        f.operation == Operation::Apply,
        fits(f.phase, e),
        well_formed(f),
    ensures
        f.phase == Phase::Listing ==> {
            let (g, a) = next(f, e);
            let out = match e {
                EventView::Output(r) => output_or_empty(r),
                _ => Seq::empty(),
            };
            &&& g.names == spec_network_services(out)
            &&& g.index == 0
            &&& g.names.len() > 0 ==> a == (ActionView::ReadDns { service: g.names[0] })
        },
        f.phase == Phase::ReadingDns || f.phase == Phase::ReadingInfo || f.phase == Phase::SavingService
            ==> next(f, e).0.names == f.names && next(f, e).0.index == f.index,
        f.phase == Phase::Switching && f.index + 1 < f.names.len() ==> {
            let (g, a) = next(f, e);
            &&& g.names == f.names
            &&& g.index == f.index + 1
            &&& g.phase == Phase::ReadingDns
            &&& a == (ActionView::ReadDns { service: f.names[f.index + 1] })
        },
        next(f, e).1 is WriteAnchor ==> (f.phase == Phase::Listing && next(f, e).0.names.len() == 0)
            || (f.phase == Phase::Switching && f.index + 1 == f.names.len()),
{
}

/// A refused step of an apply puts everything back: the firewall is taken
/// down (pf switched off again when the apply switched it on), both half
/// routes and the server route removed, each service whose settings were
/// saved gets its resolvers and IPv6 back, and the saved state is removed;
/// then the error is reported.
pub proof fn lemma_apply_puts_back(f: FlowView, e: EventView)
    requires
        f.operation == Operation::Apply,
        fits(f.phase, e),
        next(f, e).0.phase == Phase::Unwinding,
    ensures
        next(f, e).1 == (ActionView::Perform { steps: spec_revert_steps(applied_now(f)) }),
        spec_revert_steps(applied_now(f)).last() == (StepView::RemoveFile { path: state_file() }),
        next(next(f, e).0, EventView::Done).1 == (ActionView::Finish {
            result: Err(next(f, e).0.failure),
        }),
{
}

/// Taking the firewall down after an apply puts pf back as it was: the
/// anchor's rules are flushed, `/etc/pf.conf` is restored from its backup,
/// the anchor file is removed and pf reloaded, and then pf is switched off
/// exactly when the apply found it off (which an apply records before
/// switching pf on, see `lemma_apply_saves_before_changes`).
pub proof fn lemma_killswitch_off_restores_pf(a: AppliedView)
    ensures
        spec_revert_steps(a).take(4) == seq![
            run("pfctl"@, seq!["-a"@, anchor_name(), "-F"@, "all"@]),
            StepView::RestorePfConf,
            StepView::RemoveFile { path: crate::net_macos::anchor_file() },
            run("pfctl"@, seq!["-f"@, "/etc/pf.conf"@]),
        ],
        a.pf_enabled_by_us ==> spec_revert_steps(a)[4] == run("pfctl"@, seq!["-d"@]),
        !a.pf_enabled_by_us ==> spec_revert_steps(a)[4] == crate::net_macos::half_route_del(
            "0.0.0.0/1"@,
            a.iface,
        ),
{
    assert(spec_revert_steps(a).take(4) =~= seq![
        run("pfctl"@, seq!["-a"@, anchor_name(), "-F"@, "all"@]),
        StepView::RestorePfConf,
        StepView::RemoveFile { path: crate::net_macos::anchor_file() },
        run("pfctl"@, seq!["-f"@, "/etc/pf.conf"@]),
    ]);
}

/// Reverting does nothing when nothing was applied; otherwise it performs
/// exactly the changes that undo the saved state, lowering the firewall
/// first, and then finishes.
pub proof fn lemma_revert(f: FlowView, prev: Option<AppliedView>)
    requires
        f.operation == Operation::Revert,
        f.phase == Phase::Loading,
    ensures
        prev is None ==> next(f, EventView::Loaded(prev)).1 == (ActionView::Finish { result: Ok(()) }),
        prev is Some ==> ({
            let (g, a) = next(f, EventView::Loaded(prev));
            &&& a == (ActionView::Perform { steps: spec_revert_steps(prev.unwrap()) })
            &&& spec_revert_steps(prev.unwrap())[0] == run(
                "pfctl"@,
                seq!["-a"@, anchor_name(), "-F"@, "all"@],
            )
            &&& next(g, EventView::Done).1 == (ActionView::Finish { result: Ok(()) })
        }),
{
}

} // verus!
