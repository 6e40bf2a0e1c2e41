//! Routing, DNS and IPv6 on macOS: what the commands print, the firewall
//! rules, and what is saved so that every change can be undone.
//!
//! Three changes, in an order that does not change: a host route to the
//! server through the physical gateway (without it the tunnel's own packets
//! would enter the tunnel), two half routes `0.0.0.0/1` and `128.0.0.0/1`
//! into the interface (more specific than the default route, which is left
//! alone), then DNS through `networksetup` with IPv6 switched off, since the
//! node does not carry IPv6. The firewall configuration is backed up before
//! it is patched, and what was changed is saved so that it can be undone.

use vstd::prelude::*;

use crate::config::string_views;
use crate::json::{lemma_strings_in_all, member, strings_in, strings_of, text_of, bool_of, Json};
use crate::text::{
    chars_of, contains, decimal, lines, parse_unsigned, push_str, push_decimal, rsplit_once,
    spec_contains, spec_lines, spec_parse_unsigned, spec_rsplit_once,
    spec_strip_prefix, spec_trim, string_of, strip_prefix, trim,
    views,
};

verus! {

// ------------------------------------------------------------ the physical route

/// The gateway and interface named by the lines of `route -n get default`:
/// the last `gateway:` and `interface:` lines win.
pub open spec fn route_scan(ls: Seq<Seq<char>>) -> (Seq<char>, Seq<char>)
    decreases ls.len(),
{
    if ls.len() == 0 {
        (Seq::empty(), Seq::empty())
    } else {
        let prev = route_scan(ls.drop_last());
        let line = spec_trim(ls.last());
        match spec_strip_prefix(line, "gateway:"@) {
            Some(v) => (spec_trim(v), prev.1),
            None => match spec_strip_prefix(line, "interface:"@) {
                Some(v) => (prev.0, spec_trim(v)),
                None => prev,
            },
        }
    }
}

/// The message when no network is up.
pub open spec fn no_network_message() -> Seq<char> {
    "Aucune connexion réseau active."@
}

/// The physical gateway and interface in the output of `route -n get default`.
pub open spec fn spec_physical_route(out: Seq<char>) -> Result<(Seq<char>, Seq<char>), Seq<char>> {
    let (g, i) = route_scan(spec_lines(out));
    if g.len() == 0 || i.len() == 0 {
        Err(no_network_message())
    } else {
        Ok((g, i))
    }
}

/// The physical gateway and interface, read before any change.
pub fn physical_route(out: &str) -> (r: Result<(String, String), String>)
    ensures
        match spec_physical_route(out@) {
            Ok((g, i)) => r matches Ok((a, b)) && a@ == g && b@ == i,
            Err(m) => r matches Err(e) && e@ == m,
        },
{
    let ls = lines(&chars_of(out));
    let mut gateway: Vec<char> = Vec::new();
    let mut iface: Vec<char> = Vec::new();
    let mut k: usize = 0;
    proof {
        assert(views(ls@).take(0) =~= Seq::<Seq<char>>::empty());
    }
    while k < ls.len()
        invariant
            k <= ls@.len(),
            views(ls@) == spec_lines(out@),
            (gateway@, iface@) == route_scan(views(ls@).take(k as int)),
        decreases ls@.len() - k,
    {
        proof {
            assert(views(ls@).take(k + 1).drop_last() =~= views(ls@).take(k as int));
            assert(views(ls@).take(k + 1).last() == ls@[k as int]@);
        }
        let line = trim(&ls[k]);
        match strip_prefix(&line, "gateway:") {
            Some(v) => {
                gateway = trim(&v);
            },
            None => match strip_prefix(&line, "interface:") {
                Some(v) => {
                    iface = trim(&v);
                },
                None => {},
            },
        }
        k = k + 1;
    }
    proof {
        assert(views(ls@).take(ls@.len() as int) =~= views(ls@));
    }
    if gateway.len() == 0 || iface.len() == 0 {
        return Err("Aucune connexion réseau active.".to_owned());
    }
    Ok((string_of(gateway), string_of(iface)))
}

/// The current physical gateway, to notice a change of network: `out` is
/// what `route -n get default` printed.
pub fn current_gateway(out: &str) -> (r: Option<String>)
    ensures
        match spec_physical_route(out@) {
            Ok((g, _)) => r matches Some(s) && s@ == g,
            Err(_) => r is None,
        },
{
    match physical_route(out) {
        Ok((g, _)) => Some(g),
        Err(_) => None,
    }
}

// ------------------------------------------------------------ network services

/// A listed line that names an active service: not empty, and not marked
/// with the `*` of a disabled service.
pub open spec fn active_service(name: Seq<char>) -> bool {
    name.len() > 0 && name[0] != '*'
}

/// The active services named by the lines `ls`, trimmed, in order.
pub open spec fn names_in(ls: Seq<Seq<char>>) -> Seq<Seq<char>>
    decreases ls.len(),
{
    if ls.len() == 0 {
        Seq::empty()
    } else {
        let rest = names_in(ls.drop_last());
        let n = spec_trim(ls.last());
        if active_service(n) {
            rest.push(n)
        } else {
            rest
        }
    }
}

/// The active network services ("Wi-Fi", "Ethernet") in the output of
/// `networksetup -listallnetworkservices`, whose first line is a notice;
/// disabled services, marked with `*`, are left out.
pub open spec fn spec_network_services(out: Seq<char>) -> Seq<Seq<char>> {
    let ls = spec_lines(out);
    if ls.len() == 0 {
        Seq::empty()
    } else {
        names_in(ls.skip(1))
    }
}

pub fn network_services(out: &str) -> (r: Vec<String>)
    ensures
        string_views(r@) == spec_network_services(out@),
{
    let ls = lines(&chars_of(out));
    let mut r: Vec<String> = Vec::new();
    if ls.len() == 0 {
        proof {
            assert(string_views(r@) =~= Seq::<Seq<char>>::empty());
        }
        return r;
    }
    let ghost rest = views(ls@).skip(1);
    let mut k: usize = 1;
    proof {
        assert(rest.take(0) =~= Seq::<Seq<char>>::empty());
        assert(string_views(r@) =~= Seq::<Seq<char>>::empty());
    }
    while k < ls.len()
        invariant
            1 <= k <= ls@.len(),
            views(ls@) == spec_lines(out@),
            rest == views(ls@).skip(1),
            string_views(r@) == names_in(rest.take(k - 1)),
        decreases ls@.len() - k,
    {
        proof {
            assert(rest.take(k as int).drop_last() =~= rest.take(k - 1));
            assert(rest.take(k as int).last() == ls@[k as int]@);
        }
        let name = trim(&ls[k]);
        if name.len() > 0 && name[0] != '*' {
            let ghost before = string_views(r@);
            r.push(string_of(name));
            proof {
                assert(string_views(r@) =~= before.push(name@));
            }
        }
        k = k + 1;
    }
    proof {
        assert(rest.take(ls@.len() - 1) =~= rest);
    }
    r
}

/// The value of the first line of `ls` that starts with `label`, trimmed.
pub open spec fn field_in(ls: Seq<Seq<char>>, label: Seq<char>) -> Option<Seq<char>>
    decreases ls.len(),
{
    if ls.len() == 0 {
        None
    } else {
        match spec_strip_prefix(ls[0], label) {
            Some(v) => Some(spec_trim(v)),
            None => field_in(ls.drop_first(), label),
        }
    }
}

/// The value of the line `label` in the output `out` of `networksetup
/// -getinfo`, or `absent` when no line carries it.
pub open spec fn info_field(out: Seq<char>, label: Seq<char>, absent: Seq<char>) -> Seq<char> {
    match field_in(spec_lines(out), label) {
        Some(v) => v,
        None => absent,
    }
}

/// A service's IPv6 setting before any change (the `IPv6:` line of
/// `networksetup -getinfo`), `Automatic` when not listed.
pub open spec fn spec_previous_ipv6(out: Seq<char>) -> Seq<char> {
    info_field(out, "IPv6:"@, "Automatic"@)
}

/// A manual IPv6 setting before any change, as the arguments that
/// `networksetup -setv6manual` takes after the service: the address, the
/// prefix length (64 when not listed) and the router. Nothing when the
/// setting is not manual.
pub open spec fn spec_ipv6_manual(out: Seq<char>) -> Seq<Seq<char>> {
    if spec_previous_ipv6(out) == "Manual"@ {
        seq![
            info_field(out, "IPv6 IP address:"@, Seq::empty()),
            info_field(out, "IPv6 Prefix Length:"@, "64"@),
            info_field(out, "IPv6 Router:"@, Seq::empty()),
        ]
    } else {
        Seq::empty()
    }
}

fn info_value(out: &str, label: &str, absent: &str) -> (r: String)
    ensures
        r@ == info_field(out@, label@, absent@),
{
    let ls = lines(&chars_of(out));
    let mut k: usize = 0;
    proof {
        assert(views(ls@).skip(0) =~= views(ls@));
    }
    while k < ls.len()
        invariant
            k <= ls@.len(),
            views(ls@) == spec_lines(out@),
            field_in(views(ls@).skip(k as int), label@) == field_in(views(ls@), label@),
        decreases ls@.len() - k,
    {
        proof {
            assert(views(ls@).skip(k as int)[0] == ls@[k as int]@);
            assert(views(ls@).skip(k as int).drop_first() =~= views(ls@).skip(k + 1));
        }
        match strip_prefix(&ls[k], label) {
            Some(v) => {
                return string_of(trim(&v));
            },
            None => {},
        }
        k = k + 1;
    }
    proof {
        assert(views(ls@).skip(k as int).len() == 0);
    }
    absent.to_owned()
}

pub fn previous_ipv6(out: &str) -> (r: String)
    ensures
        r@ == spec_previous_ipv6(out@),
{
    info_value(out, "IPv6:", "Automatic")
}

pub fn ipv6_manual(out: &str) -> (r: Vec<String>)
    ensures
        string_views(r@) == spec_ipv6_manual(out@),
{
    let mode = previous_ipv6(out);
    proof {
        reveal_strlit("Manual");
    }
    if crate::text::chars_are(&chars_of(mode.as_str()), "Manual") {
        let address = info_value(out, "IPv6 IP address:", "");
        let prefix = info_value(out, "IPv6 Prefix Length:", "64");
        let router = info_value(out, "IPv6 Router:", "");
        proof {
            reveal_strlit("");
            assert(""@ =~= Seq::<char>::empty());
        }
        let mut r: Vec<String> = Vec::new();
        r.push(address);
        r.push(prefix);
        r.push(router);
        proof {
            assert(string_views(r@) =~= spec_ipv6_manual(out@));
        }
        r
    } else {
        let r: Vec<String> = Vec::new();
        proof {
            assert(string_views(r@) =~= spec_ipv6_manual(out@));
        }
        r
    }
}

// ------------------------------------------------------------ the server

/// The server's address: what comes before the last `:` of the endpoint.
pub open spec fn spec_endpoint_ip(endpoint: Seq<char>) -> Seq<char> {
    match spec_rsplit_once(endpoint, ':') {
        Some((h, _)) => h,
        None => endpoint,
    }
}

/// The server's port: what follows the last `:`, or WireGuard's 51820.
pub open spec fn spec_endpoint_port(endpoint: Seq<char>) -> u16 {
    match spec_rsplit_once(endpoint, ':') {
        Some((_, p)) => match spec_parse_unsigned(p, 65535) {
            Some(n) => n as u16,
            None => 51820,
        },
        None => 51820,
    }
}

pub fn endpoint_ip(endpoint: &str) -> (r: String)
    ensures
        r@ == spec_endpoint_ip(endpoint@),
{
    let e = chars_of(endpoint);
    match rsplit_once(&e, ':') {
        Some((h, _)) => string_of(h),
        None => endpoint.to_owned(),
    }
}

pub fn endpoint_port(endpoint: &str) -> (r: u16)
    ensures
        r == spec_endpoint_port(endpoint@),
{
    let e = chars_of(endpoint);
    match rsplit_once(&e, ':') {
        Some((_, p)) => match parse_unsigned(&p, 65535) {
            Some(n) => n as u16,
            None => 51820,
        },
        None => 51820,
    }
}

// ------------------------------------------------------------ the kill switch

/// The firewall rules: everything is blocked but the tunnel itself, the
/// server and DHCP. If the tunnel falls its interface vanishes and nothing
/// passes: the user loses the network instead of leaking in clear.
pub open spec fn spec_anchor_rules(iface: Seq<char>, endpoint_ip: Seq<char>, port: u16) -> Seq<char> {
    "# Généré par Deliriuum Direct — ne pas modifier à la main.\nblock drop all\npass quick on lo0 all\npass quick on "@
        + iface + " all\npass out quick proto udp from any to "@ + endpoint_ip + " port "@
        + decimal(port as nat) + "\npass in quick proto udp from "@ + endpoint_ip + " port "@
        + decimal(port as nat)
        + " to any\n# DHCP, sinon la machine perd son bail et donc son réseau.\npass out quick proto udp from any port 68 to any port 67\npass in quick proto udp from any port 67 to any port 68\n"@
}

pub fn anchor_rules(iface: &str, endpoint_ip: &str, port: u16) -> (r: String)
    ensures
        r@ == spec_anchor_rules(iface@, endpoint_ip@, port),
{
    let mut v: Vec<char> = Vec::new();
    push_str(
        &mut v,
        "# Généré par Deliriuum Direct — ne pas modifier à la main.\nblock drop all\npass quick on lo0 all\npass quick on ",
    );
    push_str(&mut v, iface);
    push_str(&mut v, " all\npass out quick proto udp from any to ");
    push_str(&mut v, endpoint_ip);
    push_str(&mut v, " port ");
    push_decimal(&mut v, port as u64);
    push_str(&mut v, "\npass in quick proto udp from ");
    push_str(&mut v, endpoint_ip);
    push_str(&mut v, " port ");
    push_decimal(&mut v, port as u64);
    push_str(
        &mut v,
        " to any\n# DHCP, sinon la machine perd son bail et donc son réseau.\npass out quick proto udp from any port 68 to any port 67\npass in quick proto udp from any port 67 to any port 68\n",
    );
    string_of(v)
}

/// The name of the firewall anchor.
pub open spec fn anchor_name() -> Seq<char> {
    "com.deliriuum.direct"@
}

/// Whether `/etc/pf.conf` already loads the anchor.
pub fn loads_anchor(pf_conf: &str) -> (r: bool)
    ensures
        r == spec_contains(pf_conf@, anchor_name()),
{
    contains(&chars_of(pf_conf), "com.deliriuum.direct")
}

/// `/etc/pf.conf` with the lines that load the anchor appended.
pub open spec fn spec_patched_pf_conf(pf_conf: Seq<char>) -> Seq<char> {
    pf_conf
        + "\nanchor \"com.deliriuum.direct\"\nload anchor \"com.deliriuum.direct\" from \"/etc/pf.anchors/com.deliriuum.direct\"\n"@
}

pub fn patched_pf_conf(pf_conf: &str) -> (r: String)
    ensures
        r@ == spec_patched_pf_conf(pf_conf@),
{
    let mut v = chars_of(pf_conf);
    push_str(
        &mut v,
        "\nanchor \"com.deliriuum.direct\"\nload anchor \"com.deliriuum.direct\" from \"/etc/pf.anchors/com.deliriuum.direct\"\n",
    );
    string_of(v)
}

/// Whether `pfctl -s info` reports pf as enabled (false when it failed).
pub open spec fn spec_pf_was_enabled(info: Result<Seq<char>, Seq<char>>) -> bool {
    match info {
        Ok(o) => spec_contains(o, "Status: Enabled"@),
        Err(_) => false,
    }
}

pub fn pf_was_enabled(info: &Result<String, String>) -> (r: bool)
    ensures
        r == spec_pf_was_enabled(
            match info {
                Ok(o) => Ok(o@),
                Err(e) => Err(e@),
            },
        ),
{
    match info {
        Ok(o) => contains(&chars_of(o.as_str()), "Status: Enabled"),
        Err(_) => false,
    }
}

/// Whether the rules that `pfctl -a <anchor> -s rules` lists hold the
/// blocking rule: an anchor loaded empty blocks nothing, and the service
/// checks rather than promise a protection that does not exist.
pub open spec fn spec_rules_loaded(listed: Result<Seq<char>, Seq<char>>) -> bool {
    match listed {
        Ok(o) => spec_contains(o, "block drop all"@),
        Err(_) => false,
    }
}

pub fn rules_loaded(listed: &Result<String, String>) -> (r: bool)
    ensures
        r == spec_rules_loaded(
            match listed {
                Ok(o) => Ok(o@),
                Err(e) => Err(e@),
            },
        ),
{
    match listed {
        Ok(o) => contains(&chars_of(o.as_str()), "block drop all"),
        Err(_) => false,
    }
}


// ------------------------------------------------------------ what was applied

/// A network service's settings before any change: its name, its
/// resolvers, its IPv6 setting, and the arguments of a manual IPv6 setting
/// (address, prefix length, router; none when it is not manual).
pub type Service = (String, Vec<String>, String, Vec<String>);

/// A service's saved settings as plain values.
pub type ServiceView = (Seq<char>, Seq<Seq<char>>, Seq<char>, Seq<Seq<char>>);

/// What was applied, saved to disk before any change and again as the
/// changes are made, so that the machine can be put back as it was, even
/// after a crash.
pub struct Applied {
    pub iface: String,
    pub endpoint_ip: String,
    pub gateway: String,
    /// The services whose settings were read, in order.
    pub services: Vec<Service>,
    /// pf was off before and must be switched off again.
    pub pf_enabled_by_us: bool,
}

/// A service's saved settings as plain values.
pub open spec fn service_view(s: Service) -> ServiceView {
    (s.0@, string_views(s.1@), s.2@, string_views(s.3@))
}

#[verifier::ext_equal]
pub struct AppliedView {
    pub iface: Seq<char>,
    pub endpoint_ip: Seq<char>,
    pub gateway: Seq<char>,
    pub services: Seq<ServiceView>,
    pub pf_enabled_by_us: bool,
}

impl View for Applied {
    type V = AppliedView;

    open spec fn view(&self) -> AppliedView {
        AppliedView {
            iface: self.iface@,
            endpoint_ip: self.endpoint_ip@,
            gateway: self.gateway@,
            services: Seq::new(self.services@.len(), |i: int| service_view(self.services@[i])),
            pf_enabled_by_us: self.pf_enabled_by_us,
        }
    }
}

/// A saved service read back: a missing name is empty, missing resolvers
/// are none, a missing IPv6 setting is `Automatic`, missing manual IPv6
/// arguments are none.
pub open spec fn service_from(s: Json) -> ServiceView {
    (
        match text_of(member(s, "name"@)) {
            Some(n) => n@,
            None => Seq::empty(),
        },
        match member(s, "dns"@) {
            Some(Json::Array(a)) => strings_in(a@),
            _ => Seq::empty(),
        },
        match text_of(member(s, "ipv6"@)) {
            Some(x) => x@,
            None => "Automatic"@,
        },
        match member(s, "ipv6_manual"@) {
            Some(Json::Array(a)) => strings_in(a@),
            _ => Seq::empty(),
        },
    )
}

/// The saved state read back from its JSON: the interface, the server's
/// address, the gateway and the list of services are required.
pub open spec fn spec_applied_from(v: Json) -> Option<AppliedView> {
    match (
        text_of(member(v, "iface"@)),
        text_of(member(v, "endpoint_ip"@)),
        text_of(member(v, "gateway"@)),
        member(v, "services"@),
    ) {
        (Some(i), Some(e), Some(g), Some(Json::Array(items))) => Some(
            AppliedView {
                iface: i@,
                endpoint_ip: e@,
                gateway: g@,
                services: Seq::new(items@.len(), |k: int| service_from(items@[k])),
                pf_enabled_by_us: match bool_of(member(v, "pf_enabled_by_us"@)) {
                    Some(b) => b,
                    None => false,
                },
            },
        ),
        _ => None,
    }
}

fn service_of(s: &Json) -> (r: Service)
    ensures
        service_view(r) == service_from(*s),
{
    let name = match s.text("name") {
        Some(n) => n,
        None => String::new(),
    };
    let dns = match s.get("dns") {
        Some(Json::Array(a)) => strings_of(a),
        _ => Vec::new(),
    };
    let ipv6 = match s.text("ipv6") {
        Some(x) => x,
        None => "Automatic".to_owned(),
    };
    let manual = match s.get("ipv6_manual") {
        Some(Json::Array(a)) => strings_of(a),
        _ => Vec::new(),
    };
    let r = (name, dns, ipv6, manual);
    proof {
        let sf = service_from(*s);
        assert(string_views(r.1@) =~= sf.1);
        assert(string_views(r.3@) =~= sf.3);
    }
    r
}

fn text_list(v: &Vec<String>) -> (r: Vec<Json>)
    ensures
        r@.len() == v@.len(),
        forall|k: int| 0 <= k < r@.len() ==> #[trigger] r@[k] == Json::Str(v@[k]),
{
    let mut r: Vec<Json> = Vec::new();
    let mut i: usize = 0;
    while i < v.len()
        invariant
            i <= v@.len(),
            r@.len() == i,
            forall|k: int| 0 <= k < i ==> #[trigger] r@[k] == Json::Str(v@[k]),
        decreases v@.len() - i,
    {
        r.push(Json::Str(v[i].clone()));
        i = i + 1;
    }
    r
}

fn service_json(s: &Service) -> (r: Json)
    ensures
        service_from(r) == service_view(*s),
{
    let dns = text_list(&s.1);
    let manual = text_list(&s.3);
    proof {
        lemma_strings_in_all(dns@);
        lemma_strings_in_all(manual@);
        assert(Seq::new(dns@.len(), |k: int| dns@[k]->Str_0@) =~= string_views(s.1@));
        assert(Seq::new(manual@.len(), |k: int| manual@[k]->Str_0@) =~= string_views(s.3@));
        reveal_strlit("name");
        reveal_strlit("dns");
        reveal_strlit("ipv6");
        reveal_strlit("ipv6_manual");
        assert("dns"@ != "name"@ && "ipv6"@ != "name"@ && "ipv6"@ != "dns"@) by {
            assert("dns"@.len() != "name"@.len());
            assert("ipv6"@.len() != "dns"@.len());
            assert("ipv6"@[0] != "name"@[0]);
        }
        assert("ipv6_manual"@ != "name"@ && "ipv6_manual"@ != "dns"@ && "ipv6_manual"@ != "ipv6"@) by {
            assert("ipv6_manual"@.len() != "name"@.len());
            assert("ipv6_manual"@.len() != "dns"@.len());
            assert("ipv6_manual"@.len() != "ipv6"@.len());
        }
    }
    let mut fields: Vec<(String, Json)> = Vec::new();
    fields.push(("name".to_owned(), Json::Str(s.0.clone())));
    fields.push(("dns".to_owned(), Json::Array(dns)));
    fields.push(("ipv6".to_owned(), Json::Str(s.2.clone())));
    fields.push(("ipv6_manual".to_owned(), Json::Array(manual)));
    let r = Json::Object(fields);
    proof {
        reveal_with_fuel(crate::json::find_member, 5);
    }
    r
}

impl Applied {
    /// The state as the JSON saved to disk. Read back with `load`, it gives
    /// the same state.
    pub fn to_json(&self) -> (r: Json)
        ensures
            spec_applied_from(r) == Some(self@),
    {
        let mut items: Vec<Json> = Vec::new();
        let mut i: usize = 0;
        while i < self.services.len()
            invariant
                i <= self.services@.len(),
                items@.len() == i,
                forall|k: int| 0 <= k < i ==> service_from(#[trigger] items@[k]) == service_view(
                    self.services@[k],
                ),
            decreases self.services@.len() - i,
        {
            items.push(service_json(&self.services[i]));
            i = i + 1;
        }
        proof {
            reveal_strlit("iface");
            reveal_strlit("endpoint_ip");
            reveal_strlit("gateway");
            reveal_strlit("pf_enabled_by_us");
            reveal_strlit("services");
            assert("endpoint_ip"@ != "iface"@) by {
                assert("endpoint_ip"@.len() != "iface"@.len());
            }
            assert("gateway"@ != "iface"@ && "gateway"@ != "endpoint_ip"@) by {
                assert("gateway"@.len() != "iface"@.len());
                assert("gateway"@.len() != "endpoint_ip"@.len());
            }
            assert("pf_enabled_by_us"@ != "iface"@ && "pf_enabled_by_us"@ != "endpoint_ip"@
                && "pf_enabled_by_us"@ != "gateway"@) by {
                assert("pf_enabled_by_us"@.len() != "iface"@.len());
                assert("pf_enabled_by_us"@.len() != "endpoint_ip"@.len());
                assert("pf_enabled_by_us"@.len() != "gateway"@.len());
            }
            assert("services"@ != "iface"@ && "services"@ != "endpoint_ip"@ && "services"@
                != "gateway"@ && "services"@ != "pf_enabled_by_us"@) by {
                assert("services"@.len() != "iface"@.len());
                assert("services"@.len() != "endpoint_ip"@.len());
                assert("services"@[0] != "gateway"@[0]);
                assert("services"@.len() != "pf_enabled_by_us"@.len());
            }
        }
        let mut fields: Vec<(String, Json)> = Vec::new();
        fields.push(("iface".to_owned(), Json::Str(self.iface.clone())));
        fields.push(("endpoint_ip".to_owned(), Json::Str(self.endpoint_ip.clone())));
        fields.push(("gateway".to_owned(), Json::Str(self.gateway.clone())));
        fields.push(("pf_enabled_by_us".to_owned(), Json::Bool(self.pf_enabled_by_us)));
        fields.push(("services".to_owned(), Json::Array(items)));
        let r = Json::Object(fields);
        proof {
            reveal_with_fuel(crate::json::find_member, 6);
            let v = spec_applied_from(r).unwrap();
            assert(v.services =~= self@.services);
            assert(v =~= self@);
        }
        r
    }

    /// The state read back from the JSON saved to disk.
    pub fn load(v: &Json) -> (r: Option<Applied>)
        ensures
            match r {
                Some(a) => spec_applied_from(*v) == Some(a@),
                None => spec_applied_from(*v) is None,
            },
    {
        let iface = match v.text("iface") {
            Some(x) => x,
            None => return None,
        };
        let endpoint_ip = match v.text("endpoint_ip") {
            Some(x) => x,
            None => return None,
        };
        let gateway = match v.text("gateway") {
            Some(x) => x,
            None => return None,
        };
        let items = match v.get("services") {
            Some(Json::Array(items)) => items,
            _ => return None,
        };
        let pf_enabled_by_us = match v.flag("pf_enabled_by_us") {
            Some(b) => b,
            None => false,
        };
        let mut services: Vec<Service> = Vec::new();
        let mut i: usize = 0;
        while i < items.len()
            invariant
                i <= items@.len(),
                services@.len() == i,
                forall|k: int| 0 <= k < i ==> service_view(#[trigger] services@[k]) == service_from(
                    items@[k],
                ),
            decreases items@.len() - i,
        {
            services.push(service_of(&items[i]));
            i = i + 1;
        }
        let a = Applied { iface, endpoint_ip, gateway, services, pf_enabled_by_us };
        proof {
            let w = spec_applied_from(*v).unwrap();
            assert(a@.services =~= w.services);
            assert(a@ =~= w);
        }
        Some(a)
    }
}


// ------------------------------------------------------------ undoing

/// A change to the system whose failure is ignored: undoing goes on.
pub enum Step {
    /// Run a program with these arguments.
    Run { program: String, args: Vec<String> },
    /// Put back `/etc/pf.conf` from the backup taken before it was patched,
    /// and remove the backup (nothing when there is none).
    RestorePfConf,
    /// Remove a file.
    RemoveFile { path: String },
}

pub enum StepView {
    Run { program: Seq<char>, args: Seq<Seq<char>> },
    RestorePfConf,
    RemoveFile { path: Seq<char> },
}

impl View for Step {
    type V = StepView;

    open spec fn view(&self) -> StepView {
        match self {
            Step::Run { program, args } => StepView::Run { program: program@, args: string_views(args@) },
            Step::RestorePfConf => StepView::RestorePfConf,
            Step::RemoveFile { path } => StepView::RemoveFile { path: path@ },
        }
    }
}

pub open spec fn step_views(s: Seq<Step>) -> Seq<StepView> {
    Seq::new(s.len(), |i: int| s[i]@)
}

pub open spec fn run(program: Seq<char>, args: Seq<Seq<char>>) -> StepView {
    StepView::Run { program, args }
}

/// The file of the firewall anchor.
pub open spec fn anchor_file() -> Seq<char> {
    "/etc/pf.anchors/com.deliriuum.direct"@
}

/// The file where the applied state is saved.
pub open spec fn state_file() -> Seq<char> {
    "/var/lib/deliriuum-direct/network.json"@
}

/// Taking the firewall down: the anchor's rules are flushed, `/etc/pf.conf`
/// is put back, the anchor file removed, pf reloaded, and pf switched off
/// when it was off before.
pub open spec fn killswitch_off_steps(we_enabled_pf: bool) -> Seq<StepView> {
    seq![
        run("pfctl"@, seq!["-a"@, anchor_name(), "-F"@, "all"@]),
        StepView::RestorePfConf,
        StepView::RemoveFile { path: anchor_file() },
        run("pfctl"@, seq!["-f"@, "/etc/pf.conf"@]),
    ] + if we_enabled_pf {
        seq![run("pfctl"@, seq!["-d"@])]
    } else {
        Seq::empty()
    }
}

/// Deleting one of the half routes through `iface`.
pub open spec fn half_route_del(half: Seq<char>, iface: Seq<char>) -> StepView {
    run("route"@, seq!["-n"@, "delete"@, "-net"@, half, "-interface"@, iface])
}

/// Deleting the two half routes through `iface` and the server route.
pub open spec fn route_removal_steps(iface: Seq<char>, endpoint_ip: Seq<char>) -> Seq<StepView> {
    seq![
        half_route_del("0.0.0.0/1"@, iface),
        half_route_del("128.0.0.0/1"@, iface),
        run("route"@, seq!["-n"@, "delete"@, "-host"@, endpoint_ip]),
    ]
}

/// Putting one service back: its resolvers (`Empty` when it had none), and
/// its IPv6 setting: left off when the user had switched it off, set back
/// to the same address, prefix length and router when it was manual, and
/// automatic otherwise.
pub open spec fn restore_service_steps(s: ServiceView) -> Seq<StepView> {
    let dns = if s.1.len() == 0 {
        run("networksetup"@, seq!["-setdnsservers"@, s.0, "Empty"@])
    } else {
        run("networksetup"@, seq!["-setdnsservers"@, s.0] + s.1)
    };
    if s.2 == "Off"@ {
        seq![dns]
    } else if s.2 == "Manual"@ && s.3.len() == 3 {
        seq![dns, run("networksetup"@, seq!["-setv6manual"@, s.0] + s.3)]
    } else {
        seq![dns, run("networksetup"@, seq!["-setv6automatic"@, s.0])]
    }
}

pub open spec fn restore_services_steps(ss: Seq<ServiceView>) -> Seq<StepView>
    decreases ss.len(),
{
    if ss.len() == 0 {
        Seq::empty()
    } else {
        restore_services_steps(ss.drop_last()) + restore_service_steps(ss.last())
    }
}

/// Putting the machine back as it was: the firewall first (else the machine
/// would stay without network while the rest is undone), then the routes,
/// each service's resolvers and IPv6, the DNS caches that kept answers
/// obtained through the tunnel, and the saved state.
pub open spec fn spec_revert_steps(a: AppliedView) -> Seq<StepView> {
    killswitch_off_steps(a.pf_enabled_by_us) + route_removal_steps(a.iface, a.endpoint_ip)
        + restore_services_steps(a.services) + seq![
        run("dscacheutil"@, seq!["-flushcache"@]),
        run("killall"@, seq!["-HUP"@, "mDNSResponder"@]),
        StepView::RemoveFile { path: state_file() },
    ]
}

pub(crate) fn strs1(a: &str) -> (r: Vec<String>)
    ensures
        string_views(r@) == seq![a@],
{
    let r = vec![a.to_owned()];
    proof {
        assert(string_views(r@) =~= seq![a@]);
    }
    r
}

pub(crate) fn strs2(a: &str, b: &str) -> (r: Vec<String>)
    ensures
        string_views(r@) == seq![a@, b@],
{
    let r = vec![a.to_owned(), b.to_owned()];
    proof {
        assert(string_views(r@) =~= seq![a@, b@]);
    }
    r
}

pub(crate) fn strs3(a: &str, b: &str, c: &str) -> (r: Vec<String>)
    ensures
        string_views(r@) == seq![a@, b@, c@],
{
    let r = vec![a.to_owned(), b.to_owned(), c.to_owned()];
    proof {
        assert(string_views(r@) =~= seq![a@, b@, c@]);
    }
    r
}

pub(crate) fn strs4(a: &str, b: &str, c: &str, d: &str) -> (r: Vec<String>)
    ensures
        string_views(r@) == seq![a@, b@, c@, d@],
{
    let r = vec![a.to_owned(), b.to_owned(), c.to_owned(), d.to_owned()];
    proof {
        assert(string_views(r@) =~= seq![a@, b@, c@, d@]);
    }
    r
}

pub(crate) fn strs5(a: &str, b: &str, c: &str, d: &str, e: &str) -> (r: Vec<String>)
    ensures
        string_views(r@) == seq![a@, b@, c@, d@, e@],
{
    let r = vec![a.to_owned(), b.to_owned(), c.to_owned(), d.to_owned(), e.to_owned()];
    proof {
        assert(string_views(r@) =~= seq![a@, b@, c@, d@, e@]);
    }
    r
}

pub(crate) fn strs6(a: &str, b: &str, c: &str, d: &str, e: &str, f: &str) -> (r: Vec<String>)
    ensures
        string_views(r@) == seq![a@, b@, c@, d@, e@, f@],
{
    let r = vec![a.to_owned(), b.to_owned(), c.to_owned(), d.to_owned(), e.to_owned(), f.to_owned()];
    proof {
        assert(string_views(r@) =~= seq![a@, b@, c@, d@, e@, f@]);
    }
    r
}

pub(crate) fn run_step(program: &str, args: Vec<String>) -> (r: Step)
    ensures
        r@ == run(program@, string_views(args@)),
{
    Step::Run { program: program.to_owned(), args }
}

fn push_step(out: &mut Vec<Step>, s: Step)
    ensures
        step_views(final(out)@) == step_views(old(out)@).push(s@),
{
    out.push(s);
    proof {
        assert(step_views(final(out)@) =~= step_views(old(out)@).push(s@));
    }
}

/// Appends the firewall's removal.
pub(crate) fn push_killswitch_off(out: &mut Vec<Step>, we_enabled_pf: bool)
    ensures
        step_views(final(out)@) == step_views(old(out)@) + killswitch_off_steps(we_enabled_pf),
{
    let ghost start = step_views(out@);
    push_step(out, run_step("pfctl", strs4("-a", "com.deliriuum.direct", "-F", "all")));
    push_step(out, Step::RestorePfConf);
    push_step(out, Step::RemoveFile { path: "/etc/pf.anchors/com.deliriuum.direct".to_owned() });
    push_step(out, run_step("pfctl", strs2("-f", "/etc/pf.conf")));
    if we_enabled_pf {
        push_step(out, run_step("pfctl", strs1("-d")));
    }
    proof {
        assert(step_views(out@) =~= start + killswitch_off_steps(we_enabled_pf));
    }
}

/// Appends the removal of the half routes through `iface` and of the server route.
pub(crate) fn push_route_removal(out: &mut Vec<Step>, iface: &str, endpoint_ip: &str)
    ensures
        step_views(final(out)@) == step_views(old(out)@) + route_removal_steps(iface@, endpoint_ip@),
{
    let ghost start = step_views(out@);
    push_step(out, run_step("route", strs6("-n", "delete", "-net", "0.0.0.0/1", "-interface", iface)));
    push_step(out, run_step("route", strs6("-n", "delete", "-net", "128.0.0.0/1", "-interface", iface)));
    push_step(out, run_step("route", strs4("-n", "delete", "-host", endpoint_ip)));
    proof {
        assert(step_views(out@) =~= start + route_removal_steps(iface@, endpoint_ip@));
    }
}

/// The arguments of `networksetup -setdnsservers` for a service and its resolvers.
pub(crate) fn set_dns_args(name: &str, dns: &Vec<String>) -> (r: Vec<String>)
    ensures
        string_views(r@) == seq!["-setdnsservers"@, name@] + string_views(dns@),
{
    let mut r = strs2("-setdnsservers", name);
    let mut i: usize = 0;
    while i < dns.len()
        invariant
            i <= dns@.len(),
            string_views(r@) == seq!["-setdnsservers"@, name@] + string_views(dns@).take(i as int),
        decreases dns@.len() - i,
    {
        let ghost before = string_views(r@);
        r.push(dns[i].clone());
        proof {
            assert(string_views(r@) =~= before.push(dns@[i as int]@));
            assert(string_views(dns@).take(i + 1) =~= string_views(dns@).take(i as int).push(
                dns@[i as int]@,
            ));
        }
        i = i + 1;
    }
    proof {
        assert(string_views(dns@).take(dns@.len() as int) =~= string_views(dns@));
    }
    r
}

fn push_restore_service(out: &mut Vec<Step>, s: &Service)
    ensures
        step_views(final(out)@) == step_views(old(out)@) + restore_service_steps(service_view(*s)),
{
    let ghost start = step_views(out@);
    if s.1.len() == 0 {
        push_step(out, run_step("networksetup", strs3("-setdnsservers", s.0.as_str(), "Empty")));
    } else {
        push_step(out, run_step("networksetup", set_dns_args(s.0.as_str(), &s.1)));
    }
    let v6 = chars_of(s.2.as_str());
    if crate::text::chars_are(&v6, "Off") {
    } else if crate::text::chars_are(&v6, "Manual") && s.3.len() == 3 {
        let mut args = strs2("-setv6manual", s.0.as_str());
        let ghost head = string_views(args@);
        args.push(s.3[0].clone());
        args.push(s.3[1].clone());
        args.push(s.3[2].clone());
        proof {
            assert(string_views(args@) =~= head + string_views(s.3@));
        }
        push_step(out, run_step("networksetup", args));
    } else {
        push_step(out, run_step("networksetup", strs2("-setv6automatic", s.0.as_str())));
    }
    proof {
        assert(step_views(out@) =~= start + restore_service_steps(service_view(*s)));
    }
}

/// The changes that put the machine back as it was before `a` was applied.
pub fn revert_steps(a: &Applied) -> (r: Vec<Step>)
    ensures
        step_views(r@) == spec_revert_steps(a@),
{
    let mut out: Vec<Step> = Vec::new();
    proof {
        assert(step_views(out@) =~= Seq::<StepView>::empty());
    }
    push_killswitch_off(&mut out, a.pf_enabled_by_us);
    push_route_removal(&mut out, a.iface.as_str(), a.endpoint_ip.as_str());
    let ghost head = step_views(out@);
    let mut i: usize = 0;
    proof {
        assert(a@.services.take(0) =~= Seq::<ServiceView>::empty());
        assert(step_views(out@) =~= head + restore_services_steps(a@.services.take(0)));
    }
    while i < a.services.len()
        invariant
            i <= a.services@.len(),
            step_views(out@) == head + restore_services_steps(a@.services.take(i as int)),
        decreases a.services@.len() - i,
    {
        push_restore_service(&mut out, &a.services[i]);
        proof {
            assert(a@.services.take(i + 1).drop_last() =~= a@.services.take(i as int));
            assert(a@.services.take(i + 1).last() == service_view(a.services@[i as int]));
            assert(step_views(out@) =~= head + restore_services_steps(a@.services.take(i + 1)));
        }
        i = i + 1;
    }
    proof {
        assert(a@.services.take(a.services@.len() as int) =~= a@.services);
    }
    let ghost middle = step_views(out@);
    push_step(&mut out, run_step("dscacheutil", strs1("-flushcache")));
    push_step(&mut out, run_step("killall", strs2("-HUP", "mDNSResponder")));
    push_step(&mut out, Step::RemoveFile { path: "/var/lib/deliriuum-direct/network.json".to_owned() });
    proof {
        assert(step_views(out@) =~= spec_revert_steps(a@));
    }
    out
}

} // verus!
