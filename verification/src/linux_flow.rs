//! The order of the network steps on Linux, as a state machine: the caller
//! performs each action that `NetFlow::step` returns and reports its outcome
//! as the next event, until the flow finishes.
//!
//! Applying first undoes whatever a previous run left (the saved state, its
//! routes, the kill switch), then adds the server route, the two half routes,
//! saves the state and arms the kill switch last. When a step fails, what this
//! run already added is taken back before the error is returned.

use vstd::prelude::*;

use crate::net_linux::{copy_string, Applied, Half, PhysicalRoute};

verus! {

/// Which of the three network operations a flow carries out.
#[derive(Clone, Copy, PartialEq, Eq, Debug, Structural)]
pub enum Operation {
    Apply,
    Rebind,
    Revert,
}

/// Why a flow failed.
pub enum Failure {
    /// No physical route could be read while applying.
    NoPhysicalRoute,
    /// No physical route could be read while rebinding.
    NoNewPhysicalRoute,
    /// A step failed with this message.
    Step(String),
}

/// The message shown for a failure.
pub open spec fn failure_message(f: Failure) -> Seq<char> {
    match f {
        Failure::NoPhysicalRoute => "Impossible de déterminer la route réseau physique."@,
        Failure::NoNewPhysicalRoute => "Impossible de déterminer la nouvelle route physique."@,
        Failure::Step(m) => m@,
    }
}

impl Failure {
    pub fn message(self) -> (r: String)
        ensures
            r@ == failure_message(self),
    {
        match self {
            Failure::NoPhysicalRoute => "Impossible de déterminer la route réseau physique.".to_owned(),
            Failure::NoNewPhysicalRoute => "Impossible de déterminer la nouvelle route physique.".to_owned(),
            Failure::Step(m) => m,
        }
    }
}

/// What the caller is asked to do next.
pub enum Action {
    /// Read the saved state; answer `Event::Loaded`.
    LoadState,
    /// Remove a half route (`ip -4 route del`); answer `Event::Done`.
    DeleteTunnelRoute { half: Half, iface: String },
    /// Remove the server route; answer `Event::Done`.
    DeleteEndpointRoute { ip: String },
    /// Delete the nftables table; answer `Event::Done`.
    KillswitchOff,
    /// Delete the state file; answer `Event::Done`.
    RemoveState,
    /// Resolve the endpoint to an IPv4 address and port; answer `Event::Resolved`.
    Resolve { endpoint: String },
    /// Read the physical route; answer `Event::Route`.
    ReadRoute,
    /// Route the server through the physical network; answer `Event::Outcome`.
    AddEndpointRoute { ip: String, route: PhysicalRoute },
    /// Send a half of IPv4 into the tunnel; answer `Event::Outcome`.
    AddTunnelRoute { half: Half, iface: String },
    /// Write the state file; answer `Event::Outcome`.
    SaveState { state: Applied },
    /// Replace the kill switch with the rules for these values, in one
    /// nftables transaction (`killswitch_rules`); answer `Event::Outcome`.
    KillswitchOn { tunnel: String, physical: String, ip: String, port: u16 },
    /// The flow is over.
    Finish { result: Result<(), Failure> },
}

/// What the caller reports after performing an action.
pub enum Event {
    /// The flow is started.
    Begin,
    Loaded(Option<Applied>),
    Done,
    Resolved(Result<(String, u16), String>),
    Route(Option<PhysicalRoute>),
    Outcome(Result<(), String>),
}

/// What is being taken back while a failure is unwound.
#[derive(Clone, Copy, PartialEq, Eq, Debug)]
pub enum Item {
    Low,
    High,
    Endpoint,
    State,
}

/// Where a flow stands: the action it last asked for, and what it keeps.
pub enum Phase {
    Start,
    Loading,
    PrevLow { prev_iface: String, prev_ip: String },
    PrevHigh { prev_ip: String },
    PrevEndpoint,
    KillOff,
    Remove,
    Resolving,
    Routing { ip: String, port: u16 },
    AddingEndpoint { ip: String, port: u16, route: PhysicalRoute },
    AddingLow { ip: String, port: u16, route: PhysicalRoute },
    AddingHigh { ip: String, port: u16, route: PhysicalRoute },
    Saving { ip: String, port: u16, route: PhysicalRoute },
    Arming { ip: String, port: u16, route: PhysicalRoute },
    /// Taking back `pending`; the flags say what is still to be taken back after it.
    Unwinding {
        ip: String,
        low: bool,
        high: bool,
        endpoint: bool,
        state: bool,
        pending: Item,
        error: String,
    },
    Done,
}

/// A network operation in progress.
pub struct NetFlow {
    pub operation: Operation,
    pub iface: String,
    pub endpoint: String,
    pub phase: Phase,
}

/// Whether `e` answers the action that a flow in phase `p` asked for.
pub open spec fn fits(p: Phase, e: Event) -> bool {
    match p {
        Phase::Start => e is Begin,
        Phase::Loading => e is Loaded,
        Phase::PrevLow { .. } | Phase::PrevHigh { .. } | Phase::PrevEndpoint | Phase::KillOff
        | Phase::Remove | Phase::Unwinding { .. } => e is Done,
        Phase::Resolving => e is Resolved,
        Phase::Routing { .. } => e is Route,
        Phase::AddingEndpoint { .. } | Phase::AddingLow { .. } | Phase::AddingHigh { .. }
        | Phase::Saving { .. } | Phase::Arming { .. } => e is Outcome,
        Phase::Done => false,
    }
}

/// Once the previous run is taken back: a rebind resolves the endpoint, the
/// others remove the kill switch.
pub open spec fn after_previous(f: NetFlow) -> (NetFlow, Action) {
    match f.operation {
        Operation::Rebind => (
            NetFlow { phase: Phase::Resolving, ..f },
            Action::Resolve { endpoint: f.endpoint },
        ),
        _ => (NetFlow { phase: Phase::KillOff, ..f }, Action::KillswitchOff),
    }
}

/// Takes back, in order, the low and high half routes, the server route and
/// the state file that are flagged, then fails with `error`.
pub open spec fn unwind(
    f: NetFlow,
    ip: String,
    low: bool,
    high: bool,
    endpoint: bool,
    state: bool,
    error: String,
) -> (NetFlow, Action) {
    if low {
        (
            NetFlow {
                phase: Phase::Unwinding { ip, low: false, high, endpoint, state, pending: Item::Low, error },
                ..f
            },
            Action::DeleteTunnelRoute { half: Half::Low, iface: f.iface },
        )
    } else if high {
        (
            NetFlow {
                phase: Phase::Unwinding { ip, low, high: false, endpoint, state, pending: Item::High, error },
                ..f
            },
            Action::DeleteTunnelRoute { half: Half::High, iface: f.iface },
        )
    } else if endpoint {
        (
            NetFlow {
                phase: Phase::Unwinding {
                    ip,
                    low,
                    high,
                    endpoint: false,
                    state,
                    pending: Item::Endpoint,
                    error,
                },
                ..f
            },
            Action::DeleteEndpointRoute { ip },
        )
    } else if state {
        (
            NetFlow {
                phase: Phase::Unwinding {
                    ip,
                    low,
                    high,
                    endpoint,
                    state: false,
                    pending: Item::State,
                    error,
                },
                ..f
            },
            Action::RemoveState,
        )
    } else {
        (NetFlow { phase: Phase::Done, ..f }, Action::Finish { result: Err(Failure::Step(error)) })
    }
}

/// The next phase and action of a flow, given the outcome of its last action.
pub open spec fn next(f: NetFlow, e: Event) -> (NetFlow, Action) {
    match f.phase {
        Phase::Start => (NetFlow { phase: Phase::Loading, ..f }, Action::LoadState),
        Phase::Loading => match e {
            Event::Loaded(Some(prev)) => (
                NetFlow {
                    phase: Phase::PrevLow { prev_iface: prev.tunnel_iface, prev_ip: prev.endpoint_ip },
                    ..f
                },
                Action::DeleteTunnelRoute { half: Half::Low, iface: prev.tunnel_iface },
            ),
            _ => after_previous(f),
        },
        Phase::PrevLow { prev_iface, prev_ip } => (
            NetFlow { phase: Phase::PrevHigh { prev_ip }, ..f },
            Action::DeleteTunnelRoute { half: Half::High, iface: prev_iface },
        ),
        Phase::PrevHigh { prev_ip } => (
            NetFlow { phase: Phase::PrevEndpoint, ..f },
            Action::DeleteEndpointRoute { ip: prev_ip },
        ),
        Phase::PrevEndpoint => after_previous(f),
        Phase::KillOff => (NetFlow { phase: Phase::Remove, ..f }, Action::RemoveState),
        Phase::Remove => match f.operation {
            Operation::Revert => (
                NetFlow { phase: Phase::Done, ..f },
                Action::Finish { result: Ok(()) },
            ),
            _ => (
                NetFlow { phase: Phase::Resolving, ..f },
                Action::Resolve { endpoint: f.endpoint },
            ),
        },
        Phase::Resolving => match e {
            Event::Resolved(Ok((ip, port))) => (
                NetFlow { phase: Phase::Routing { ip, port }, ..f },
                Action::ReadRoute,
            ),
            Event::Resolved(Err(m)) => (
                NetFlow { phase: Phase::Done, ..f },
                Action::Finish { result: Err(Failure::Step(m)) },
            ),
            _ => (NetFlow { phase: Phase::Done, ..f }, Action::Finish { result: Ok(()) }),
        },
        Phase::Routing { ip, port } => match e {
            Event::Route(Some(route)) => (
                NetFlow { phase: Phase::AddingEndpoint { ip, port, route }, ..f },
                Action::AddEndpointRoute { ip, route },
            ),
            _ => (
                NetFlow { phase: Phase::Done, ..f },
                Action::Finish {
                    result: Err(
                        if f.operation is Rebind {
                            Failure::NoNewPhysicalRoute
                        } else {
                            Failure::NoPhysicalRoute
                        },
                    ),
                },
            ),
        },
        Phase::AddingEndpoint { ip, port, route } => match e {
            Event::Outcome(Err(m)) => (
                NetFlow { phase: Phase::Done, ..f },
                Action::Finish { result: Err(Failure::Step(m)) },
            ),
            _ => (
                NetFlow { phase: Phase::AddingLow { ip, port, route }, ..f },
                Action::AddTunnelRoute { half: Half::Low, iface: f.iface },
            ),
        },
        Phase::AddingLow { ip, port, route } => match e {
            Event::Outcome(Err(m)) => unwind(f, ip, false, false, true, false, m),
            _ => (
                NetFlow { phase: Phase::AddingHigh { ip, port, route }, ..f },
                Action::AddTunnelRoute { half: Half::High, iface: f.iface },
            ),
        },
        Phase::AddingHigh { ip, port, route } => match e {
            Event::Outcome(Err(m)) => unwind(f, ip, true, false, true, false, m),
            _ => (
                NetFlow { phase: Phase::Saving { ip, port, route }, ..f },
                Action::SaveState {
                    state: Applied {
                        tunnel_iface: f.iface,
                        physical_iface: route.iface,
                        gateway: route.gateway,
                        endpoint_ip: ip,
                        endpoint_port: port,
                    },
                },
            ),
        },
        Phase::Saving { ip, port, route } => match e {
            Event::Outcome(Err(m)) => if f.operation is Rebind {
                (NetFlow { phase: Phase::Done, ..f }, Action::Finish { result: Err(Failure::Step(m)) })
            } else {
                unwind(f, ip, true, true, true, false, m)
            },
            _ => (
                NetFlow { phase: Phase::Arming { ip, port, route }, ..f },
                Action::KillswitchOn { tunnel: f.iface, physical: route.iface, ip, port },
            ),
        },
        Phase::Arming { ip, port, route } => match e {
            Event::Outcome(Err(m)) => if f.operation is Rebind {
                (NetFlow { phase: Phase::Done, ..f }, Action::Finish { result: Err(Failure::Step(m)) })
            } else {
                unwind(f, ip, true, true, true, true, m)
            },
            _ => (NetFlow { phase: Phase::Done, ..f }, Action::Finish { result: Ok(()) }),
        },
        Phase::Unwinding { ip, low, high, endpoint, state, pending, error } => unwind(
            f,
            ip,
            low,
            high,
            endpoint,
            state,
            error,
        ),
        Phase::Done => (f, Action::Finish { result: Ok(()) }),
    }
}


fn after_previous_exec(operation: Operation, iface: String, endpoint: String) -> (r: (NetFlow, Action))
    ensures
        r == after_previous(NetFlow { operation, iface, endpoint, phase: Phase::Start }),
{
    match operation {
        Operation::Rebind => {
            let e = copy_string(&endpoint);
            (NetFlow { operation, iface, endpoint, phase: Phase::Resolving }, Action::Resolve { endpoint: e })
        },
        _ => (NetFlow { operation, iface, endpoint, phase: Phase::KillOff }, Action::KillswitchOff),
    }
}

fn unwind_exec(
    operation: Operation,
    iface: String,
    endpoint: String,
    ip: String,
    low: bool,
    high: bool,
    endpoint_route: bool,
    state: bool,
    error: String,
) -> (r: (NetFlow, Action))
    ensures
        r == unwind(
            NetFlow { operation, iface, endpoint, phase: Phase::Start },
            ip,
            low,
            high,
            endpoint_route,
            state,
            error,
        ),
{
    if low {
        let i = copy_string(&iface);
        (
            NetFlow {
                operation,
                iface,
                endpoint,
                phase: Phase::Unwinding {
                    ip,
                    low: false,
                    high,
                    endpoint: endpoint_route,
                    state,
                    pending: Item::Low,
                    error,
                },
            },
            Action::DeleteTunnelRoute { half: Half::Low, iface: i },
        )
    } else if high {
        let i = copy_string(&iface);
        (
            NetFlow {
                operation,
                iface,
                endpoint,
                phase: Phase::Unwinding {
                    ip,
                    low,
                    high: false,
                    endpoint: endpoint_route,
                    state,
                    pending: Item::High,
                    error,
                },
            },
            Action::DeleteTunnelRoute { half: Half::High, iface: i },
        )
    } else if endpoint_route {
        let a = copy_string(&ip);
        (
            NetFlow {
                operation,
                iface,
                endpoint,
                phase: Phase::Unwinding {
                    ip,
                    low,
                    high,
                    endpoint: false,
                    state,
                    pending: Item::Endpoint,
                    error,
                },
            },
            Action::DeleteEndpointRoute { ip: a },
        )
    } else if state {
        (
            NetFlow {
                operation,
                iface,
                endpoint,
                phase: Phase::Unwinding {
                    ip,
                    low,
                    high,
                    endpoint: endpoint_route,
                    state: false,
                    pending: Item::State,
                    error,
                },
            },
            Action::RemoveState,
        )
    } else {
        (
            NetFlow { operation, iface, endpoint, phase: Phase::Done },
            Action::Finish { result: Err(Failure::Step(error)) },
        )
    }
}

impl NetFlow {
    fn new(operation: Operation, iface: &str, endpoint: &str) -> (r: NetFlow)
        ensures
            r.operation == operation,
            r.iface@ == iface@,
            r.endpoint@ == endpoint@,
            r.phase is Start,
    {
        NetFlow { operation, iface: iface.to_owned(), endpoint: endpoint.to_owned(), phase: Phase::Start }
    }

    /// Performs the step that the outcome `event` of the last action calls for.
    pub fn step(self, event: Event) -> (r: (NetFlow, Action))
        requires
            fits(self.phase, event),
        ensures
            r == next(self, event),
    {
        let NetFlow { operation, iface, endpoint, phase } = self;
        match phase {
            Phase::Start => (NetFlow { operation, iface, endpoint, phase: Phase::Loading }, Action::LoadState),
            Phase::Loading => match event {
                Event::Loaded(Some(prev)) => {
                    let low_iface = copy_string(&prev.tunnel_iface);
                    (
                        NetFlow {
                            operation,
                            iface,
                            endpoint,
                            phase: Phase::PrevLow { prev_iface: prev.tunnel_iface, prev_ip: prev.endpoint_ip },
                        },
                        Action::DeleteTunnelRoute { half: Half::Low, iface: low_iface },
                    )
                },
                _ => after_previous_exec(operation, iface, endpoint),
            },
            Phase::PrevLow { prev_iface, prev_ip } => (
                NetFlow { operation, iface, endpoint, phase: Phase::PrevHigh { prev_ip } },
                Action::DeleteTunnelRoute { half: Half::High, iface: prev_iface },
            ),
            Phase::PrevHigh { prev_ip } => (
                NetFlow { operation, iface, endpoint, phase: Phase::PrevEndpoint },
                Action::DeleteEndpointRoute { ip: prev_ip },
            ),
            Phase::PrevEndpoint => after_previous_exec(operation, iface, endpoint),
            Phase::KillOff => (NetFlow { operation, iface, endpoint, phase: Phase::Remove }, Action::RemoveState),
            Phase::Remove => match operation {
                Operation::Revert => (
                    NetFlow { operation, iface, endpoint, phase: Phase::Done },
                    Action::Finish { result: Ok(()) },
                ),
                _ => {
                    let e = copy_string(&endpoint);
                    (
                        NetFlow { operation, iface, endpoint, phase: Phase::Resolving },
                        Action::Resolve { endpoint: e },
                    )
                },
            },
            Phase::Resolving => match event {
                Event::Resolved(Ok((ip, port))) => (
                    NetFlow { operation, iface, endpoint, phase: Phase::Routing { ip, port } },
                    Action::ReadRoute,
                ),
                Event::Resolved(Err(m)) => (
                    NetFlow { operation, iface, endpoint, phase: Phase::Done },
                    Action::Finish { result: Err(Failure::Step(m)) },
                ),
                _ => (
                    NetFlow { operation, iface, endpoint, phase: Phase::Done },
                    Action::Finish { result: Ok(()) },
                ),
            },
            Phase::Routing { ip, port } => match event {
                Event::Route(Some(route)) => {
                    let a = copy_string(&ip);
                    let r = route.copy();
                    (
                        NetFlow { operation, iface, endpoint, phase: Phase::AddingEndpoint { ip, port, route } },
                        Action::AddEndpointRoute { ip: a, route: r },
                    )
                },
                _ => {
                    let failure = match operation {
                        Operation::Rebind => Failure::NoNewPhysicalRoute,
                        _ => Failure::NoPhysicalRoute,
                    };
                    (
                        NetFlow { operation, iface, endpoint, phase: Phase::Done },
                        Action::Finish { result: Err(failure) },
                    )
                },
            },
            Phase::AddingEndpoint { ip, port, route } => match event {
                Event::Outcome(Err(m)) => (
                    NetFlow { operation, iface, endpoint, phase: Phase::Done },
                    Action::Finish { result: Err(Failure::Step(m)) },
                ),
                _ => {
                    let i = copy_string(&iface);
                    (
                        NetFlow { operation, iface, endpoint, phase: Phase::AddingLow { ip, port, route } },
                        Action::AddTunnelRoute { half: Half::Low, iface: i },
                    )
                },
            },
            Phase::AddingLow { ip, port, route } => match event {
                Event::Outcome(Err(m)) => unwind_exec(
                    operation,
                    iface,
                    endpoint,
                    ip,
                    false,
                    false,
                    true,
                    false,
                    m,
                ),
                _ => {
                    let i = copy_string(&iface);
                    (
                        NetFlow { operation, iface, endpoint, phase: Phase::AddingHigh { ip, port, route } },
                        Action::AddTunnelRoute { half: Half::High, iface: i },
                    )
                },
            },
            Phase::AddingHigh { ip, port, route } => match event {
                Event::Outcome(Err(m)) => unwind_exec(
                    operation,
                    iface,
                    endpoint,
                    ip,
                    true,
                    false,
                    true,
                    false,
                    m,
                ),
                _ => {
                    let state = Applied {
                        tunnel_iface: copy_string(&iface),
                        physical_iface: copy_string(&route.iface),
                        gateway: match &route.gateway {
                            Some(g) => Some(copy_string(g)),
                            None => None,
                        },
                        endpoint_ip: copy_string(&ip),
                        endpoint_port: port,
                    };
                    (
                        NetFlow { operation, iface, endpoint, phase: Phase::Saving { ip, port, route } },
                        Action::SaveState { state },
                    )
                },
            },
            Phase::Saving { ip, port, route } => match event {
                Event::Outcome(Err(m)) => match operation {
                    Operation::Rebind => (
                        NetFlow { operation, iface, endpoint, phase: Phase::Done },
                        Action::Finish { result: Err(Failure::Step(m)) },
                    ),
                    _ => unwind_exec(operation, iface, endpoint, ip, true, true, true, false, m),
                },
                _ => {
                    let action = Action::KillswitchOn {
                        tunnel: copy_string(&iface),
                        physical: copy_string(&route.iface),
                        ip: copy_string(&ip),
                        port,
                    };
                    (NetFlow { operation, iface, endpoint, phase: Phase::Arming { ip, port, route } }, action)
                },
            },
            Phase::Arming { ip, port, route } => match event {
                Event::Outcome(Err(m)) => match operation {
                    Operation::Rebind => (
                        NetFlow { operation, iface, endpoint, phase: Phase::Done },
                        Action::Finish { result: Err(Failure::Step(m)) },
                    ),
                    _ => unwind_exec(operation, iface, endpoint, ip, true, true, true, true, m),
                },
                _ => (
                    NetFlow { operation, iface, endpoint, phase: Phase::Done },
                    Action::Finish { result: Ok(()) },
                ),
            },
            Phase::Unwinding { ip, low, high, endpoint: endpoint_route, state, pending, error } => unwind_exec(
                operation,
                iface,
                endpoint,
                ip,
                low,
                high,
                endpoint_route,
                state,
                error,
            ),
            Phase::Done => (
                NetFlow { operation, iface, endpoint, phase: Phase::Done },
                Action::Finish { result: Ok(()) },
            ),
        }
    }
}

/// Starts diverting all traffic into the tunnel interface `iface`, with the
/// WireGuard server at `endpoint` kept reachable outside the tunnel.
/// The DNS servers play no part on Linux.
pub fn apply(iface: &str, endpoint: &str, dns: &[String]) -> (r: NetFlow)
    ensures
        r.operation == Operation::Apply,
        r.iface@ == iface@,
        r.endpoint@ == endpoint@,
        r.phase is Start,
{
    NetFlow::new(Operation::Apply, iface, endpoint)
}

/// Starts moving the routing to a new tunnel interface after a change of
/// network, without lifting the kill switch first.
pub fn rebind(iface: &str, endpoint: &str) -> (r: NetFlow)
    ensures
        r.operation == Operation::Rebind,
        r.iface@ == iface@,
        r.endpoint@ == endpoint@,
        r.phase is Start,
{
    NetFlow::new(Operation::Rebind, iface, endpoint)
}

/// Starts restoring the network as it was before `apply`.
pub fn revert() -> (r: NetFlow)
    ensures
        r.operation == Operation::Revert,
        r.phase is Start,
{
    NetFlow::new(Operation::Revert, "", "")
}


/// What a run has added to the network so far: the server route, the two
/// half routes, the state file, and the kill switch.
pub struct Added {
    pub endpoint: bool,
    pub low: bool,
    pub high: bool,
    pub state: bool,
    pub armed: bool,
}

pub open spec fn nothing_added() -> Added {
    Added { endpoint: false, low: false, high: false, state: false, armed: false }
}

pub open spec fn everything_added() -> Added {
    Added { endpoint: true, low: true, high: true, state: true, armed: true }
}

/// What a flow in its phase has added, before the action it asked for.
pub open spec fn added(f: NetFlow) -> Added {
    match f.phase {
        Phase::AddingLow { .. } => Added { endpoint: true, ..nothing_added() },
        Phase::AddingHigh { .. } => Added { endpoint: true, low: true, ..nothing_added() },
        Phase::Saving { .. } => Added { endpoint: true, low: true, high: true, ..nothing_added() },
        Phase::Arming { .. } => Added { armed: false, ..everything_added() },
        Phase::Unwinding { low, high, endpoint, state, pending, .. } => Added {
            endpoint: endpoint || pending == Item::Endpoint,
            low: low || pending == Item::Low,
            high: high || pending == Item::High,
            state: state || pending == Item::State,
            armed: false,
        },
        _ => nothing_added(),
    }
}

/// What has been added once the action that `f` asked for is done and
/// reported as `e`. An addition that reports success takes effect and one
/// that fails leaves nothing; a deletion always takes effect; a kill switch
/// that fails to load is left off.
pub open spec fn effect(f: NetFlow, e: Event) -> Added {
    let ok = e matches Event::Outcome(Ok(_));
    let a = added(f);
    match f.phase {
        Phase::AddingEndpoint { .. } => Added { endpoint: ok, ..a },
        Phase::AddingLow { .. } => Added { low: ok, ..a },
        Phase::AddingHigh { .. } => Added { high: ok, ..a },
        Phase::Saving { .. } => Added { state: ok, ..a },
        Phase::Arming { .. } => Added { armed: ok, ..a },
        Phase::Unwinding { low, high, endpoint, state, .. } => Added {
            endpoint,
            low,
            high,
            state,
            armed: false,
        },
        _ => a,
    }
}

/// Applying the network is all or nothing: each step keeps account of what
/// the run has added; a failed `apply` finishes only once everything it added
/// is taken back, and a successful one finishes with the server route, both
/// half routes, the state file and the kill switch in place, armed last.
/// A rebind keeps the same account; when it fails before saving its state,
/// nothing it added is left behind.
pub proof fn lemma_flow_accounting(f: NetFlow, e: Event)
    requires
        fits(f.phase, e),
    ensures
        ({
            let (g, a) = next(f, e);
            &&& g.operation == f.operation
            &&& g.iface == f.iface
            &&& g.endpoint == f.endpoint
            &&& !(g.phase is Done) ==> added(g) == effect(f, e) && !(a is Finish)
            &&& g.phase is Done <==> a is Finish
            &&& (a matches Action::Finish { result: Ok(_) }) && f.operation != Operation::Revert
                ==> effect(f, e) == everything_added()
            &&& (a matches Action::Finish { result: Err(_) }) && f.operation == Operation::Apply
                ==> effect(f, e) == nothing_added()
            &&& (a matches Action::Finish { result: Err(_) }) && f.operation == Operation::Rebind
                && !(f.phase is Saving) && !(f.phase is Arming) ==> effect(f, e) == nothing_added()
            &&& (a is KillswitchOn) ==> effect(f, e) == Added { armed: false, ..everything_added() }
        }),
{
}

/// A flow starts with nothing added.
pub proof fn lemma_flow_starts_clean(f: NetFlow)
    requires
        f.phase is Start,
    ensures
        added(f) == nothing_added(),
{
}


/// A rebind never asks to remove the kill switch: it leaves the previous
/// run's table in place until `KillswitchOn` replaces it with the rules of
/// the new interface, in the same nftables transaction (see
/// `lemma_killswitch_replaced_at_once`), and it never passes through the
/// phases that take the kill switch and the state file away.
pub proof fn lemma_rebind_keeps_killswitch(f: NetFlow, e: Event)
    requires
        f.operation == Operation::Rebind,
        !(f.phase is KillOff),
        !(f.phase is Remove),
        fits(f.phase, e),
    ensures
        !(next(f, e).1 is KillswitchOff),
        !(next(f, e).1 is RemoveState) || next(f, e).0.phase is Unwinding,
        !(next(f, e).0.phase is KillOff),
        !(next(f, e).0.phase is Remove),
{
}

/// Undoing what the last run left: once the saved state `prev` is loaded,
/// the next actions remove the low and then the high half route on the
/// saved tunnel interface, and then the route to the saved server address,
/// whatever the operation and whatever the new interface.
pub proof fn lemma_previous_run_taken_back(f: NetFlow, prev: Applied)
    requires
        f.phase is Loading,
    ensures
        ({
            let (g1, a1) = next(f, Event::Loaded(Some(prev)));
            let (g2, a2) = next(g1, Event::Done);
            let (g3, a3) = next(g2, Event::Done);
            &&& a1 == Action::DeleteTunnelRoute { half: Half::Low, iface: prev.tunnel_iface }
            &&& a2 == Action::DeleteTunnelRoute { half: Half::High, iface: prev.tunnel_iface }
            &&& a3 == Action::DeleteEndpointRoute { ip: prev.endpoint_ip }
            &&& g3.operation == f.operation && g3.iface == f.iface && g3.endpoint == f.endpoint
        }),
{
}

} // verus!
