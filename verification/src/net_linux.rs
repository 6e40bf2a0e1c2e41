//! Network set-up on Linux: a direct route to the WireGuard server, the IPv4
//! traffic sent into the TUN interface, an nftables kill switch, and the saved
//! state that lets the network be restored after a disconnection.
//!
//! The commands themselves are run by the caller; this module reads their
//! output, builds their arguments, and decides the order of the steps.

use vstd::prelude::*;

use crate::config::string_views;
use crate::text::{
    line_safe, lemma_lines_cons, lemma_lines_last,
    chars_of, decimal, lines, parse_unsigned, push_chars, push_decimal, push_str, rsplit_once,
    slice_chars, spec_lines, spec_parse_unsigned, spec_rsplit_once, spec_trim, spec_words,
    string_of, trim, words, chars_are, lemma_decimal_digits, lemma_find_last_at, lemma_parse_decimal,
    is_digit, is_space, lemma_lines_single, lemma_trim_end_keeps, lemma_words_cons, lemma_words_single,
    trim_end, trim_start, lemma_contains_middle, spec_contains,
};

verus! {

/// The characters of an optional string.
pub open spec fn opt_view(o: Option<String>) -> Option<Seq<char>> {
    match o {
        Some(s) => Some(s@),
        None => None,
    }
}

/// The default route of the physical network.
pub struct PhysicalRoute {
    pub gateway: Option<String>,
    pub iface: String,
}

pub struct RouteView {
    pub gateway: Option<Seq<char>>,
    pub iface: Seq<char>,
}

impl View for PhysicalRoute {
    type V = RouteView;

    open spec fn view(&self) -> RouteView {
        RouteView { gateway: opt_view(self.gateway), iface: self.iface@ }
    }
}

/// The gateway (after `via`) and device (after `dev`) named among the fields
/// of a route line; a later mention replaces an earlier one.
pub open spec fn route_fields(f: Seq<Seq<char>>, gw: Option<Seq<char>>, dev: Option<Seq<char>>) -> (
    Option<Seq<char>>,
    Option<Seq<char>>,
)
    decreases f.len(),
{
    if f.len() == 0 {
        (gw, dev)
    } else if f[0] == "via"@ && f.len() > 1 {
        route_fields(f.skip(2), Some(f[1]), dev)
    } else if f[0] == "dev"@ && f.len() > 1 {
        route_fields(f.skip(2), gw, Some(f[1]))
    } else {
        route_fields(f.drop_first(), gw, dev)
    }
}

/// The physical route that the output of `ip -4 route show default` names in
/// its first line; `None` when that line names no device.
pub open spec fn spec_physical_route(out: Seq<char>) -> Option<RouteView> {
    let ls = spec_lines(spec_trim(out));
    if ls.len() == 0 {
        None
    } else {
        match route_fields(spec_words(ls[0]), None, None) {
            (gw, Some(dev)) => Some(RouteView { gateway: gw, iface: dev }),
            (_, None) => None,
        }
    }
}

/// Only the first line counts, the route that the kernel uses: for a first
/// line `l` (without a line feed and without white space at its ends) and
/// any other lines `t`, the output `l`, newline, `t` names the route that
/// `l` alone names.
pub proof fn lemma_physical_route_first_line(l: Seq<char>, t: Seq<char>)
    requires
        l.len() > 0,
        !is_space(l[0]),
        !is_space(l.last()),
        forall|k: int| 0 <= k < l.len() ==> l[k] != '\n',
    ensures
        spec_physical_route(l + "\n"@ + t) == spec_physical_route(l),
{
    reveal_strlit("\n");
    let s = l + "\n"@ + t;
    let n = l.len() as int;
    assert(s[0] == l[0]);
    assert(trim_start(s) == s);
    assert(trim_start(l) == l);
    assert(trim_end(l) == l);
    lemma_lines_single(l);
    assert(s[n - 1] == l.last());
    let m = lemma_trim_end_keeps(s, n - 1);
    let u = s.take(m);
    assert(spec_trim(s) == u);
    assert(line_safe(l));
    if m == n {
        assert(u =~= l);
    } else {
        let rest = s.take(m).skip(n + 1);
        assert(u =~= l + "\n"@ + rest);
        lemma_lines_cons(l, rest);
        assert(spec_lines(u)[0] == l);
    }
}

/// The route line names the gateway after `via` and the device after `dev`:
/// `default via <g> dev <d>`, on the first line, is the route through `g` on
/// `d`, whatever lines follow.
pub proof fn lemma_physical_route_reads(g: Seq<char>, d: Seq<char>, t: Seq<char>)
    requires
        g.len() > 0,
        d.len() > 0,
        forall|k: int| 0 <= k < g.len() ==> !is_space(#[trigger] g[k]),
        forall|k: int| 0 <= k < d.len() ==> !is_space(#[trigger] d[k]),
    ensures
        spec_physical_route("default via "@ + g + " dev "@ + d) == Some(RouteView { gateway: Some(g), iface: d }),
        spec_physical_route("default via "@ + g + " dev "@ + d + "\n"@ + t) == Some(
            RouteView { gateway: Some(g), iface: d },
        ),
{
    reveal_strlit("default via ");
    reveal_strlit(" dev ");
    reveal_strlit("default");
    reveal_strlit("via");
    reveal_strlit("dev");
    let w0 = "default"@;
    let w1 = "via"@;
    let w3 = "dev"@;
    let l = "default via "@ + g + " dev "@ + d;
    let r3 = w3 + seq![' '] + d;
    let r2 = g + seq![' '] + r3;
    let r1 = w1 + seq![' '] + r2;
    assert(l =~= w0 + seq![' '] + r1);
    lemma_words_single(d);
    lemma_words_cons(w3, ' ', d);
    lemma_words_cons(g, ' ', r3);
    lemma_words_cons(w1, ' ', r2);
    lemma_words_cons(w0, ' ', r1);
    let f = seq![w0, w1, g, w3, d];
    assert(spec_words(l) =~= f);
    assert(w0 != w1 && w0 != w3) by {
        assert(w0.len() != w1.len());
        assert(w0.len() != w3.len());
    }
    assert(w1 != w3) by {
        assert(w1[0] != w3[0]);
    }
    assert(f.drop_first() =~= seq![w1, g, w3, d]);
    assert(seq![w1, g, w3, d].skip(2) =~= seq![w3, d]);
    assert(seq![w3, d].skip(2) =~= Seq::<Seq<char>>::empty());
    assert(route_fields(seq![w3, d], Some(g), None) == route_fields(Seq::<Seq<char>>::empty(), Some(g), Some(d)));
    assert(route_fields(seq![w1, g, w3, d], None, None) == route_fields(seq![w3, d], Some(g), None));
    assert(route_fields(f, None, None) == route_fields(seq![w1, g, w3, d], None, None));
    assert(route_fields(f, None, None) == (Some(g), Some(d)));
    let n = l.len() as int;
    assert forall|k: int| 0 <= k < n implies l[k] != '\n' by {
        let a = "default via "@.len() as int;
        if k < a {
        } else if k < a + g.len() {
            assert(l[k] == g[k - a]);
        } else if k < a + g.len() + 5 {
        } else {
            assert(l[k] == d[k - a - g.len() - 5]);
        }
    }
    assert(l[0] == 'd');
    assert(l.last() == d.last());
    assert(!is_space(d[d.len() - 1]));
    assert(trim_start(l) == l);
    assert(trim_end(l) == l);
    lemma_lines_single(l);
    lemma_physical_route_first_line(l, t);
}

/// Reads the physical route from the output of `ip -4 route show default`.
pub fn physical_route(out: &str) -> (r: Option<PhysicalRoute>)
    ensures
        match r {
            Some(route) => spec_physical_route(out@) == Some(route@),
            None => spec_physical_route(out@) is None,
        },
{
    let text = trim(&chars_of(out));
    let ls = lines(&text);
    if ls.len() == 0 {
        return None;
    }
    let fields = words(&ls[0]);
    let ghost f = crate::text::views(fields@);
    let mut gateway: Option<Vec<char>> = None;
    let mut iface: Option<Vec<char>> = None;
    let mut i: usize = 0;
    proof {
        assert(f.skip(0) == f);
    }
    while i < fields.len()
        invariant
            i <= fields@.len(),
            f == crate::text::views(fields@),
            route_fields(f, None, None) == route_fields(
                f.skip(i as int),
                match gateway {
                    Some(g) => Some(g@),
                    None => None,
                },
                match iface {
                    Some(d) => Some(d@),
                    None => None,
                },
            ),
        decreases fields@.len() - i,
    {
        let ghost rest = f.skip(i as int);
        proof {
            assert(rest[0] == fields@[i as int]@);
            assert(rest.drop_first() == f.skip(i + 1));
        }
        if chars_are(&fields[i], "via") && i + 1 < fields.len() {
            proof {
                assert(rest[1] == fields@[i + 1]@);
                assert(rest.skip(2) == f.skip(i + 2));
            }
            gateway = Some(slice_chars(&fields[i + 1], 0, fields[i + 1].len()));
            proof {
                assert(fields@[i + 1]@.subrange(0, fields@[i + 1]@.len() as int) == fields@[i + 1]@);
            }
            i = i + 2;
        } else if chars_are(&fields[i], "dev") && i + 1 < fields.len() {
            proof {
                assert(rest[1] == fields@[i + 1]@);
                assert(rest.skip(2) == f.skip(i + 2));
            }
            iface = Some(slice_chars(&fields[i + 1], 0, fields[i + 1].len()));
            proof {
                assert(fields@[i + 1]@.subrange(0, fields@[i + 1]@.len() as int) == fields@[i + 1]@);
            }
            i = i + 2;
        } else {
            i = i + 1;
        }
    }
    proof {
        assert(f.skip(i as int).len() == 0);
    }
    match iface {
        Some(d) => Some(
            PhysicalRoute {
                gateway: match gateway {
                    Some(g) => Some(string_of(g)),
                    None => None,
                },
                iface: string_of(d),
            },
        ),
        None => None,
    }
}

/// How the physical route is shown to tell one network from another:
/// `gateway@device`, or `direct@device` without a gateway.
pub open spec fn route_label(r: RouteView) -> Seq<char> {
    match r.gateway {
        Some(g) => g + "@"@ + r.iface,
        None => "direct@"@ + r.iface,
    }
}

/// The current physical gateway, read from the output of
/// `ip -4 route show default`, to notice a change of network.
pub fn current_gateway(out: &str) -> (r: Option<String>)
    ensures
        match r {
            Some(s) => spec_physical_route(out@) matches Some(route) && s@ == route_label(route),
            None => spec_physical_route(out@) is None,
        },
{
    let route = physical_route(out)?;
    let mut v: Vec<char> = Vec::new();
    match &route.gateway {
        Some(g) => {
            push_str(&mut v, g.as_str());
            push_str(&mut v, "@");
        },
        None => {
            push_str(&mut v, "direct@");
        },
    }
    push_str(&mut v, route.iface.as_str());
    Some(string_of(v))
}

/// Why an endpoint is refused.
pub enum EndpointError {
    Invalid,
    BadPort,
}

/// The message for a refused endpoint, which quotes it.
pub open spec fn endpoint_error_message(e: EndpointError, endpoint: Seq<char>) -> Seq<char> {
    match e {
        EndpointError::Invalid => "Endpoint WireGuard invalide : "@ + endpoint,
        EndpointError::BadPort => "Port WireGuard invalide : "@ + endpoint,
    }
}

/// Whether `]:` starts at `k` in `s`.
pub open spec fn bracket_colon_at(s: Seq<char>, k: int) -> bool {
    s[k] == ']' && s[k + 1] == ':'
}

/// Index of the first `]:` in `s`.
pub open spec fn find_bracket_colon(s: Seq<char>) -> Option<int>
    decreases s.len(),
{
    if s.len() < 2 {
        None
    } else if s[0] == ']' && s[1] == ':' {
        Some(0)
    } else {
        match find_bracket_colon(s.drop_first()) {
            Some(i) => Some(i + 1),
            None => None,
        }
    }
}

/// Host and port of an endpoint: `[host]:port` for a bracketed host, else
/// the text before and after the last `:`.
pub open spec fn spec_endpoint_parts(e: Seq<char>) -> Result<(Seq<char>, u16), EndpointError> {
    if e.len() > 0 && e[0] == '[' {
        match find_bracket_colon(e) {
            None => Err(EndpointError::Invalid),
            Some(end) => match spec_parse_unsigned(e.skip(end + 2), 65535) {
                Some(p) => Ok((e.subrange(1, end), p as u16)),
                None => Err(EndpointError::BadPort),
            },
        }
    } else {
        match spec_rsplit_once(e, ':') {
            None => Err(EndpointError::Invalid),
            Some((host, port)) => match spec_parse_unsigned(port, 65535) {
                Some(p) => Ok((host, p as u16)),
                None => Err(EndpointError::BadPort),
            },
        }
    }
}

proof fn lemma_find_bracket_colon(s: Seq<char>)
    ensures
        match find_bracket_colon(s) {
            Some(i) => 0 <= i && i + 1 < s.len() && bracket_colon_at(s, i) && forall|k: int|
                0 <= k < i ==> !#[trigger] bracket_colon_at(s, k),
            None => forall|k: int| 0 <= k && k + 1 < s.len() ==> !#[trigger] bracket_colon_at(s, k),
        },
    decreases s.len(),
{
    if s.len() >= 2 && !(s[0] == ']' && s[1] == ':') {
        lemma_find_bracket_colon(s.drop_first());
        let t = s.drop_first();
        assert forall|k: int| 1 <= k && k + 1 < s.len() implies #[trigger] bracket_colon_at(s, k)
            == bracket_colon_at(t, k - 1) by {}
    }
}

fn find_bracket_colon_exec(e: &Vec<char>) -> (r: Option<usize>)
    ensures
        match r {
            Some(i) => find_bracket_colon(e@) == Some(i as int),
            None => find_bracket_colon(e@) is None,
        },
{
    proof {
        lemma_find_bracket_colon(e@);
    }
    let n = e.len();
    let mut i: usize = 0;
    while i < n
        invariant
            i <= n == e@.len(),
            forall|k: int| 0 <= k < i && k + 1 < n ==> !#[trigger] bracket_colon_at(e@, k),
        decreases n - i,
    {
        if i + 1 < n && e[i] == ']' && e[i + 1] == ':' {
            proof {
                lemma_find_bracket_colon(e@);
                assert(bracket_colon_at(e@, i as int));
                match find_bracket_colon(e@) {
                    Some(j) => {
                        if j > i {
                            assert(!bracket_colon_at(e@, i as int));
                        }
                    },
                    None => {
                        assert(!bracket_colon_at(e@, i as int));
                    },
                }
            }
            return Some(i);
        }
        i = i + 1;
    }
    proof {
        lemma_find_bracket_colon(e@);
        match find_bracket_colon(e@) {
            Some(j) => {
                assert(!bracket_colon_at(e@, j));
            },
            None => {},
        }
    }
    None
}

/// An endpoint written from a host and a port splits back into them: as
/// `host:port` when the host does not start with `[`, and as `[host]:port`
/// when the host holds no `]:`.
pub proof fn lemma_endpoint_parts_roundtrip(h: Seq<char>, p: u16)
    ensures
        !(h.len() > 0 && h[0] == '[') ==> spec_endpoint_parts(h + ":"@ + decimal(p as nat)) == Ok::<
            (Seq<char>, u16),
            EndpointError,
        >((h, p)),
        (forall|k: int| 0 <= k && k + 1 < h.len() ==> !#[trigger] bracket_colon_at(h, k))
            ==> spec_endpoint_parts("["@ + h + "]:"@ + decimal(p as nat)) == Ok::<
            (Seq<char>, u16),
            EndpointError,
        >((h, p)),
{
    reveal_strlit(":");
    reveal_strlit("[");
    reveal_strlit("]:");
    let d = decimal(p as nat);
    lemma_decimal_digits(p as nat);
    lemma_parse_decimal(p as nat, 65535);
    assert(spec_parse_unsigned(d, 65535) == Some(p as int));
    if !(h.len() > 0 && h[0] == '[') {
        let e = h + ":"@ + d;
        assert(e[h.len() as int] == ':');
        assert forall|k: int| h.len() < k < e.len() implies e[k] != ':' by {
            assert(e[k] == d[k - h.len() - 1]);
            assert(is_digit(d[k - h.len() - 1]));
        }
        lemma_find_last_at(e, ':', h.len() as int);
        assert(e.take(h.len() as int) =~= h);
        assert(e.skip(h.len() as int + 1) =~= d);
        assert(e[0] != '[') by {
            if h.len() == 0 {
                assert(e[0] == ':');
            } else {
                assert(e[0] == h[0]);
            }
        }
    }
    if forall|k: int| 0 <= k && k + 1 < h.len() ==> !#[trigger] bracket_colon_at(h, k) {
        let e = "["@ + h + "]:"@ + d;
        let n = h.len() as int;
        assert(e[0] == '[');
        assert(bracket_colon_at(e, n + 1));
        lemma_find_bracket_colon(e);
        match find_bracket_colon(e) {
            Some(i) => {
                if i < n + 1 {
                    assert(bracket_colon_at(e, i));
                    if i == 0 {
                        assert(e[0] == '[');
                    } else if i < n {
                        assert(e[i] == h[i - 1] && e[i + 1] == h[i]);
                        assert(bracket_colon_at(h, i - 1));
                    } else {
                        assert(e[i + 1] == ']');
                    }
                }
                assert(i == n + 1);
            },
            None => {},
        }
        assert(e.subrange(1, n + 1) =~= h);
        assert(e.skip(n + 3) =~= d);
    }
}

fn endpoint_error(prefix: &str, endpoint: &str) -> (r: String)
    ensures
        r@ == prefix@ + endpoint@,
{
    let mut v: Vec<char> = Vec::new();
    push_str(&mut v, prefix);
    push_str(&mut v, endpoint);
    string_of(v)
}

/// Splits a WireGuard endpoint into host and port.
pub fn endpoint_parts(endpoint: &str) -> (r: Result<(String, u16), String>)
    ensures
        match r {
            Ok((host, port)) => spec_endpoint_parts(endpoint@) == Ok::<
                (Seq<char>, u16),
                EndpointError,
            >((host@, port)),
            Err(msg) => spec_endpoint_parts(endpoint@) matches Err(e) && msg@
                == endpoint_error_message(e, endpoint@),
        },
{
    let e = chars_of(endpoint);
    if e.len() > 0 && e[0] == '[' {
        let n = e.len();
        let found = find_bracket_colon_exec(&e);
        match found {
            None => {
                Err(endpoint_error("Endpoint WireGuard invalide : ", endpoint))
            },
            Some(end) => {
                proof {
                    lemma_find_bracket_colon(e@);
                    if end == 0 {
                        assert(bracket_colon_at(e@, 0));
                    }
                }
                let host = slice_chars(&e, 1, end);
                let port_text = slice_chars(&e, end + 2, n);
                proof {
                    assert(port_text@ == e@.skip(end + 2));
                }
                match parse_unsigned(&port_text, 65535) {
                    Some(p) => Ok((string_of(host), p as u16)),
                    None => Err(endpoint_error("Port WireGuard invalide : ", endpoint)),
                }
            },
        }
    } else {
        match rsplit_once(&e, ':') {
            None => Err(endpoint_error("Endpoint WireGuard invalide : ", endpoint)),
            Some((host, port_text)) => match parse_unsigned(&port_text, 65535) {
                Some(p) => Ok((string_of(host), p as u16)),
                None => Err(endpoint_error("Port WireGuard invalide : ", endpoint)),
            },
        }
    }
}

/// An address that the endpoint's host stands for, in its text form.
pub enum Address {
    V4(String),
    V6(String),
}

/// The server as routed around the tunnel when the endpoint's host is the
/// address `ip` itself: IPv4 only, since the routes and the kill switch are
/// IPv4.
pub open spec fn spec_literal_endpoint(ip: Address, port: u16) -> Result<(Seq<char>, u16), Seq<char>> {
    match ip {
        Address::V4(a) => Ok((a@, port)),
        Address::V6(_) => Err("Les endpoints WireGuard IPv6 ne sont pas encore pris en charge sous Linux."@),
    }
}

pub fn literal_endpoint(ip: Address, port: u16) -> (r: Result<(String, u16), String>)
    ensures
        match r {
            Ok((a, p)) => spec_literal_endpoint(ip, port) == Ok::<(Seq<char>, u16), Seq<char>>((a@, p)),
            Err(m) => spec_literal_endpoint(ip, port) == Err::<(Seq<char>, u16), Seq<char>>(m@),
        },
{
    match ip {
        Address::V4(a) => Ok((a, port)),
        Address::V6(_) => Err("Les endpoints WireGuard IPv6 ne sont pas encore pris en charge sous Linux.".to_owned()),
    }
}

/// The first IPv4 address among `answers`.
pub open spec fn first_v4(answers: Seq<Address>) -> Option<Seq<char>>
    decreases answers.len(),
{
    if answers.len() == 0 {
        None
    } else {
        match answers[0] {
            Address::V4(a) => Some(a@),
            Address::V6(_) => first_v4(answers.drop_first()),
        }
    }
}

/// The server as routed around the tunnel when its host is a name: the
/// first IPv4 address that resolution gave, or why there is none (the
/// resolver's error `answers` carries, or no IPv4 answer).
pub open spec fn spec_resolved_endpoint(
    host: Seq<char>,
    port: u16,
    answers: Result<Seq<Address>, Seq<char>>,
) -> Result<(Seq<char>, u16), Seq<char>> {
    match answers {
        Err(e) => Err("Impossible de résoudre "@ + host + " : "@ + e),
        Ok(list) => match first_v4(list) {
            Some(a) => Ok((a, port)),
            None => Err("Aucune adresse IPv4 trouvée pour le serveur WireGuard "@ + host),
        },
    }
}

fn first_ipv4(list: &Vec<Address>) -> (r: Option<String>)
    ensures
        match r {
            Some(a) => first_v4(list@) == Some(a@),
            None => first_v4(list@) is None,
        },
{
    let mut k: usize = 0;
    proof {
        assert(list@.skip(0) =~= list@);
    }
    while k < list.len()
        invariant
            k <= list@.len(),
            first_v4(list@.skip(k as int)) == first_v4(list@),
        decreases list@.len() - k,
    {
        proof {
            assert(list@.skip(k as int)[0] == list@[k as int]);
            assert(list@.skip(k as int).drop_first() =~= list@.skip(k + 1));
        }
        match &list[k] {
            Address::V4(a) => {
                return Some(a.clone());
            },
            Address::V6(_) => {},
        }
        k = k + 1;
    }
    proof {
        assert(list@.skip(k as int).len() == 0);
    }
    None
}

pub fn resolved_endpoint(host: &str, port: u16, answers: Result<Vec<Address>, String>) -> (r: Result<(String, u16), String>)
    ensures
        match r {
            Ok((a, p)) => spec_resolved_endpoint(
                host@,
                port,
                match answers {
                    Ok(l) => Ok(l@),
                    Err(e) => Err(e@),
                },
            ) == Ok::<(Seq<char>, u16), Seq<char>>((a@, p)),
            Err(m) => spec_resolved_endpoint(
                host@,
                port,
                match answers {
                    Ok(l) => Ok(l@),
                    Err(e) => Err(e@),
                },
            ) == Err::<(Seq<char>, u16), Seq<char>>(m@),
        },
{
    match answers {
        Err(e) => {
            let mut v: Vec<char> = Vec::new();
            push_str(&mut v, "Impossible de résoudre ");
            push_str(&mut v, host);
            push_str(&mut v, " : ");
            push_str(&mut v, e.as_str());
            Err(string_of(v))
        },
        Ok(list) => {
            if let Some(a) = first_ipv4(&list) {
                return Ok((a, port));
            }
            let mut v: Vec<char> = Vec::new();
            push_str(&mut v, "Aucune adresse IPv4 trouvée pour le serveur WireGuard ");
            push_str(&mut v, host);
            Err(string_of(v))
        },
    }
}


/// What was applied to the network, saved to disk so that it can be undone.
pub struct Applied {
    pub tunnel_iface: String,
    pub physical_iface: String,
    pub gateway: Option<String>,
    pub endpoint_ip: String,
    pub endpoint_port: u16,
}

#[verifier::ext_equal]
pub struct AppliedView {
    pub tunnel_iface: Seq<char>,
    pub physical_iface: Seq<char>,
    pub gateway: Option<Seq<char>>,
    pub endpoint_ip: Seq<char>,
    pub endpoint_port: u16,
}

impl View for Applied {
    type V = AppliedView;

    open spec fn view(&self) -> AppliedView {
        AppliedView {
            tunnel_iface: self.tunnel_iface@,
            physical_iface: self.physical_iface@,
            gateway: opt_view(self.gateway),
            endpoint_ip: self.endpoint_ip@,
            endpoint_port: self.endpoint_port,
        }
    }
}

/// The state file: one value per line, `-` standing for no gateway.
pub open spec fn spec_state_text(a: AppliedView) -> Seq<char> {
    let gw = match a.gateway {
        Some(g) => g,
        None => "-"@,
    };
    a.tunnel_iface + "\n"@ + a.physical_iface + "\n"@ + gw + "\n"@ + a.endpoint_ip + "\n"@
        + decimal(a.endpoint_port as nat) + "\n"@
}

/// What a state file reads back as: its first five lines, the last a port.
pub open spec fn spec_load_state(content: Seq<char>) -> Option<AppliedView> {
    let ls = spec_lines(content);
    if ls.len() < 5 {
        None
    } else {
        match spec_parse_unsigned(ls[4], 65535) {
            Some(p) => Some(
                AppliedView {
                    tunnel_iface: ls[0],
                    physical_iface: ls[1],
                    gateway: if ls[2] == "-"@ {
                        None
                    } else {
                        Some(ls[2])
                    },
                    endpoint_ip: ls[3],
                    endpoint_port: p as u16,
                },
            ),
            None => None,
        }
    }
}

/// The content written to the state file.
pub fn state_text(a: &Applied) -> (r: String)
    ensures
        r@ == spec_state_text(a@),
{
    let mut v: Vec<char> = Vec::new();
    push_str(&mut v, a.tunnel_iface.as_str());
    push_str(&mut v, "\n");
    push_str(&mut v, a.physical_iface.as_str());
    push_str(&mut v, "\n");
    match &a.gateway {
        Some(g) => push_str(&mut v, g.as_str()),
        None => push_str(&mut v, "-"),
    }
    push_str(&mut v, "\n");
    push_str(&mut v, a.endpoint_ip.as_str());
    push_str(&mut v, "\n");
    push_decimal(&mut v, a.endpoint_port as u64);
    push_str(&mut v, "\n");
    string_of(v)
}

/// Reads the state file back.
pub fn load_state(content: &str) -> (r: Option<Applied>)
    ensures
        match r {
            Some(a) => spec_load_state(content@) == Some(a@),
            None => spec_load_state(content@) is None,
        },
{
    let ls = lines(&chars_of(content));
    if ls.len() < 5 {
        return None;
    }
    let port = match parse_unsigned(&ls[4], 65535) {
        Some(p) => p as u16,
        None => {
            return None;
        },
    };
    let gateway = if chars_are(&ls[2], "-") {
        None
    } else {
        Some(string_of(slice_chars(&ls[2], 0, ls[2].len())))
    };
    let a = Applied {
        tunnel_iface: string_of(slice_chars(&ls[0], 0, ls[0].len())),
        physical_iface: string_of(slice_chars(&ls[1], 0, ls[1].len())),
        gateway,
        endpoint_ip: string_of(slice_chars(&ls[3], 0, ls[3].len())),
        endpoint_port: port,
    };
    proof {
        assert(ls@[0]@.subrange(0, ls@[0]@.len() as int) == ls@[0]@);
        assert(ls@[1]@.subrange(0, ls@[1]@.len() as int) == ls@[1]@);
        assert(ls@[2]@.subrange(0, ls@[2]@.len() as int) == ls@[2]@);
        assert(ls@[3]@.subrange(0, ls@[3]@.len() as int) == ls@[3]@);
        assert(a@ =~= spec_load_state(content@).unwrap());
    }
    Some(a)
}


proof fn lemma_lines_five(x0: Seq<char>, x1: Seq<char>, x2: Seq<char>, x3: Seq<char>, x4: Seq<char>)
    requires
        line_safe(x0),
        line_safe(x1),
        line_safe(x2),
        line_safe(x3),
        line_safe(x4),
    ensures
        spec_lines(x0 + "\n"@ + (x1 + "\n"@ + (x2 + "\n"@ + (x3 + "\n"@ + (x4 + "\n"@)))))
            == seq![x0, x1, x2, x3, x4],
{
    let nl = "\n"@;
    let l5 = x4 + nl;
    lemma_lines_last(x4);
    let l4 = x3 + nl + l5;
    lemma_lines_cons(x3, l5);
    let l3 = x2 + nl + l4;
    lemma_lines_cons(x2, l4);
    let l2 = x1 + nl + l3;
    lemma_lines_cons(x1, l3);
    lemma_lines_cons(x0, l2);
    assert(seq![x0] + (seq![x1] + (seq![x2] + (seq![x3] + seq![x4]))) =~= seq![x0, x1, x2, x3, x4]);
}

proof fn lemma_state_text_shape(a: AppliedView)
    ensures
        spec_state_text(a) == a.tunnel_iface + "\n"@ + (a.physical_iface + "\n"@ + ((match a.gateway {
            Some(g) => g,
            None => "-"@,
        }) + "\n"@ + (a.endpoint_ip + "\n"@ + (decimal(a.endpoint_port as nat) + "\n"@)))),
{
    let gw = match a.gateway {
        Some(g) => g,
        None => "-"@,
    };
    let nl = "\n"@;
    let d = decimal(a.endpoint_port as nat);
    assert(spec_state_text(a) =~= a.tunnel_iface + nl + (a.physical_iface + nl + (gw + nl + (
    a.endpoint_ip + nl + (d + nl)))));
}

/// Saving a state and loading it back gives the same state, provided each
/// value fits on its line and the gateway is not the placeholder `-`.
pub proof fn lemma_state_roundtrip(a: AppliedView)
    requires
        line_safe(a.tunnel_iface),
        line_safe(a.physical_iface),
        line_safe(a.endpoint_ip),
        a.gateway matches Some(g) ==> line_safe(g) && g != "-"@,
    ensures
        spec_load_state(spec_state_text(a)) == Some(a),
{
    reveal_strlit("\n");
    reveal_strlit("-");
    let gw = match a.gateway {
        Some(g) => g,
        None => "-"@,
    };
    let d = decimal(a.endpoint_port as nat);
    crate::text::lemma_decimal_digits(a.endpoint_port as nat);
    crate::text::lemma_parse_decimal(a.endpoint_port as nat, 65535);
    assert(line_safe(d)) by {
        assert forall|k: int| 0 <= k < d.len() implies d[k] != '\n' by {
            assert(crate::text::is_digit(d[k]));
        }
        assert(crate::text::is_digit(d[d.len() - 1]));
    }
    assert(line_safe(gw));
    lemma_state_text_shape(a);
    lemma_lines_five(a.tunnel_iface, a.physical_iface, gw, a.endpoint_ip, d);
    assert(spec_load_state(spec_state_text(a)).unwrap() =~= a);
}


pub(crate) fn copy_string(s: &String) -> (r: String)
    ensures
        r == *s,
{
    s.clone()
}

impl PhysicalRoute {
    /// A copy of this route.
    pub fn copy(&self) -> (r: PhysicalRoute)
        ensures
            r == *self,
    {
        PhysicalRoute {
            gateway: match &self.gateway {
                Some(g) => Some(copy_string(g)),
                None => None,
            },
            iface: copy_string(&self.iface),
        }
    }
}

impl Applied {
    /// A copy of this state.
    pub fn copy(&self) -> (r: Applied)
        ensures
            r == *self,
    {
        Applied {
            tunnel_iface: copy_string(&self.tunnel_iface),
            physical_iface: copy_string(&self.physical_iface),
            gateway: match &self.gateway {
                Some(g) => Some(copy_string(g)),
                None => None,
            },
            endpoint_ip: copy_string(&self.endpoint_ip),
            endpoint_port: self.endpoint_port,
        }
    }
}

/// The nftables script of the kill switch: everything leaving the machine is
/// dropped except loopback, the tunnel, the WireGuard server itself, DHCP and
/// DHCPv6. The script first declares the table (a no-op when it is there)
/// and deletes it, then defines it anew: `nft -f` applies a script as one
/// transaction, so rules already in place are replaced without a moment
/// without them, and stay as they were when the script is refused.
pub open spec fn spec_killswitch_rules(tunnel: Seq<char>, physical: Seq<char>, ip: Seq<char>, port: u16) -> Seq<char> {
    "table inet deliriuum_direct {}\ndelete table inet deliriuum_direct\n\ntable inet deliriuum_direct {\n    chain output {\n        type filter hook output priority 0; policy drop;\n\n        oifname \"lo\" accept\n        oifname \""@
        + tunnel + "\" accept\n\n        oifname \""@ + physical + "\" ip daddr "@ + ip
        + " udp dport "@ + decimal(port as nat) + " accept\n\n        oifname \""@ + physical
        + "\" udp sport 68 udp dport 67 accept\n        oifname \""@ + physical
        + "\" udp sport 546 udp dport 547 accept\n    }\n}\n"@
}

/// The kill-switch script replaces the table in place: before defining the
/// new rules, the same script declares the table and deletes it, so the old
/// rules go only when the new ones take effect, in one transaction.
pub proof fn lemma_killswitch_replaced_at_once(tunnel: Seq<char>, physical: Seq<char>, ip: Seq<char>, port: u16)
    ensures
        ({
            let prefix = "table inet deliriuum_direct {}\ndelete table inet deliriuum_direct\n\ntable inet deliriuum_direct {"@;
            spec_killswitch_rules(tunnel, physical, ip, port).take(prefix.len() as int) == prefix
        }),
{
    let prefix = "table inet deliriuum_direct {}\ndelete table inet deliriuum_direct\n\ntable inet deliriuum_direct {"@;
    let head = "table inet deliriuum_direct {}\ndelete table inet deliriuum_direct\n\ntable inet deliriuum_direct {\n    chain output {\n        type filter hook output priority 0; policy drop;\n\n        oifname \"lo\" accept\n        oifname \""@;
    reveal_strlit("table inet deliriuum_direct {}\ndelete table inet deliriuum_direct\n\ntable inet deliriuum_direct {");
    reveal_strlit("table inet deliriuum_direct {}\ndelete table inet deliriuum_direct\n\ntable inet deliriuum_direct {\n    chain output {\n        type filter hook output priority 0; policy drop;\n\n        oifname \"lo\" accept\n        oifname \"");
    let whole = spec_killswitch_rules(tunnel, physical, ip, port);
    assert(head.take(prefix.len() as int) =~= prefix);
    assert(whole.take(head.len() as int) =~= head);
    assert(whole.take(prefix.len() as int) =~= prefix);
}

/// The kill switch lets through what the machine needs while everything
/// else is dropped: the output chain's policy is `drop`, and it accepts the
/// tunnel interface, the WireGuard server on the physical interface (its
/// address and port), and DHCP and DHCPv6 requests from this machine on the
/// physical interface (ports 68 to 67, and 546 to 547), so that the lease
/// is renewed while the kill switch holds.
pub proof fn lemma_killswitch_accepts(tunnel: Seq<char>, physical: Seq<char>, ip: Seq<char>, port: u16)
    ensures
        spec_contains(spec_killswitch_rules(tunnel, physical, ip, port), "policy drop;"@),
        spec_contains(spec_killswitch_rules(tunnel, physical, ip, port), "oifname \""@ + tunnel + "\" accept"@),
        spec_contains(
            spec_killswitch_rules(tunnel, physical, ip, port),
            "oifname \""@ + physical + "\" ip daddr "@ + ip + " udp dport "@ + decimal(port as nat) + " accept"@,
        ),
        spec_contains(
            spec_killswitch_rules(tunnel, physical, ip, port),
            "oifname \""@ + physical + "\" udp sport 68 udp dport 67 accept"@,
        ),
        spec_contains(
            spec_killswitch_rules(tunnel, physical, ip, port),
            "oifname \""@ + physical + "\" udp sport 546 udp dport 547 accept"@,
        ),
{
    reveal_strlit("table inet deliriuum_direct {}\ndelete table inet deliriuum_direct\n\ntable inet deliriuum_direct {\n    chain output {\n        type filter hook output priority 0; policy drop;\n\n        oifname \"lo\" accept\n        oifname \"");
    reveal_strlit("\" accept\n\n        oifname \"");
    reveal_strlit("\" ip daddr ");
    reveal_strlit(" udp dport ");
    reveal_strlit(" accept\n\n        oifname \"");
    reveal_strlit("\" udp sport 68 udp dport 67 accept\n        oifname \"");
    reveal_strlit("\" udp sport 546 udp dport 547 accept\n    }\n}\n");
    reveal_strlit("table inet deliriuum_direct {}\ndelete table inet deliriuum_direct\n\ntable inet deliriuum_direct {\n    chain output {\n        type filter hook output priority 0; ");
    reveal_strlit("policy drop;");
    reveal_strlit("\n\n        oifname \"lo\" accept\n        ");
    reveal_strlit("oifname \"");
    reveal_strlit("\" accept");
    reveal_strlit("\n\n        ");
    reveal_strlit(" accept");
    reveal_strlit("\" udp sport 68 udp dport 67 accept");
    reveal_strlit("\n        ");
    reveal_strlit("\" udp sport 546 udp dport 547 accept");
    reveal_strlit("\n    }\n}\n");
    let a0 = "table inet deliriuum_direct {}\ndelete table inet deliriuum_direct\n\ntable inet deliriuum_direct {\n    chain output {\n        type filter hook output priority 0; "@;
    let pd = "policy drop;"@;
    let a1 = "\n\n        oifname \"lo\" accept\n        "@;
    let oi = "oifname \""@;
    let acc = "\" accept"@;
    let nn = "\n\n        "@;
    let l3 = "\" ip daddr "@;
    let l4 = " udp dport "@;
    let acc2 = " accept"@;
    let d4 = "\" udp sport 68 udp dport 67 accept"@;
    let n8 = "\n        "@;
    let d6 = "\" udp sport 546 udp dport 547 accept"@;
    let end = "\n    }\n}\n"@;
    let dec = decimal(port as nat);
    let s = spec_killswitch_rules(tunnel, physical, ip, port);
    assert("table inet deliriuum_direct {}\ndelete table inet deliriuum_direct\n\ntable inet deliriuum_direct {\n    chain output {\n        type filter hook output priority 0; policy drop;\n\n        oifname \"lo\" accept\n        oifname \""@ =~= a0 + pd + a1 + oi);
    assert("\" accept\n\n        oifname \""@ =~= acc + nn + oi);
    assert(" accept\n\n        oifname \""@ =~= acc2 + nn + oi);
    assert("\" udp sport 68 udp dport 67 accept\n        oifname \""@ =~= d4 + n8 + oi);
    assert("\" udp sport 546 udp dport 547 accept\n    }\n}\n"@ =~= d6 + end);
    let tun_line = oi + tunnel + acc;
    let ep_line = oi + physical + l3 + ip + l4 + dec + acc2;
    let dhcp4 = oi + physical + d4;
    let dhcp6 = oi + physical + d6;
    let after_dhcp6 = end;
    let after_dhcp4 = n8 + dhcp6 + after_dhcp6;
    let after_ep = nn + dhcp4 + after_dhcp4;
    let after_tun = nn + ep_line + after_ep;
    let head = a0 + pd + a1;
    assert(s =~= a0 + pd + (a1 + tun_line + after_tun));
    lemma_contains_middle(a0, pd, a1 + tun_line + after_tun);
    assert(s =~= head + tun_line + after_tun);
    lemma_contains_middle(head, tun_line, after_tun);
    assert(s =~= (head + tun_line + nn) + ep_line + after_ep);
    lemma_contains_middle(head + tun_line + nn, ep_line, after_ep);
    assert(s =~= (head + tun_line + nn + ep_line + nn) + dhcp4 + after_dhcp4);
    lemma_contains_middle(head + tun_line + nn + ep_line + nn, dhcp4, after_dhcp4);
    assert(s =~= (head + tun_line + nn + ep_line + nn + dhcp4 + n8) + dhcp6 + after_dhcp6);
    lemma_contains_middle(head + tun_line + nn + ep_line + nn + dhcp4 + n8, dhcp6, after_dhcp6);
}

/// Builds the kill-switch script for `nft -f -`.
pub fn killswitch_rules(tunnel: &str, physical: &str, ip: &str, port: u16) -> (r: String)
    ensures
        r@ == spec_killswitch_rules(tunnel@, physical@, ip@, port),
{
    let mut v: Vec<char> = Vec::new();
    push_str(
        &mut v,
        "table inet deliriuum_direct {}\ndelete table inet deliriuum_direct\n\ntable inet deliriuum_direct {\n    chain output {\n        type filter hook output priority 0; policy drop;\n\n        oifname \"lo\" accept\n        oifname \"",
    );
    push_str(&mut v, tunnel);
    push_str(&mut v, "\" accept\n\n        oifname \"");
    push_str(&mut v, physical);
    push_str(&mut v, "\" ip daddr ");
    push_str(&mut v, ip);
    push_str(&mut v, " udp dport ");
    push_decimal(&mut v, port as u64);
    push_str(&mut v, " accept\n\n        oifname \"");
    push_str(&mut v, physical);
    push_str(&mut v, "\" udp sport 68 udp dport 67 accept\n        oifname \"");
    push_str(&mut v, physical);
    push_str(&mut v, "\" udp sport 546 udp dport 547 accept\n    }\n}\n");
    string_of(v)
}

/// One of the two half routes that together cover all of IPv4.
#[derive(Clone, Copy, PartialEq, Eq, Debug)]
pub enum Half {
    /// `0.0.0.0/1`
    Low,
    /// `128.0.0.0/1`
    High,
}

pub open spec fn half_net(h: Half) -> Seq<char> {
    match h {
        Half::Low => "0.0.0.0/1"@,
        Half::High => "128.0.0.0/1"@,
    }
}

fn half_text(h: Half) -> (r: String)
    ensures
        r@ == half_net(h),
{
    match h {
        Half::Low => "0.0.0.0/1".to_owned(),
        Half::High => "128.0.0.0/1".to_owned(),
    }
}

fn host_route(ip: &str) -> (r: String)
    ensures
        r@ == ip@ + "/32"@,
{
    let mut v: Vec<char> = Vec::new();
    push_str(&mut v, ip);
    push_str(&mut v, "/32");
    string_of(v)
}

/// Arguments of `ip` that route the server's address through the physical network.
pub open spec fn spec_endpoint_route_add_args(ip: Seq<char>, route: RouteView) -> Seq<Seq<char>> {
    match route.gateway {
        Some(g) => seq!["-4"@, "route"@, "replace"@, ip + "/32"@, "via"@, g, "dev"@, route.iface],
        None => seq!["-4"@, "route"@, "replace"@, ip + "/32"@, "dev"@, route.iface],
    }
}

pub fn endpoint_route_add_args(ip: &str, route: &PhysicalRoute) -> (r: Vec<String>)
    ensures
        string_views(r@) == spec_endpoint_route_add_args(ip@, route@),
{
    let mut r: Vec<String> = Vec::new();
    r.push("-4".to_owned());
    r.push("route".to_owned());
    r.push("replace".to_owned());
    r.push(host_route(ip));
    match &route.gateway {
        Some(g) => {
            r.push("via".to_owned());
            r.push(copy_string(g));
        },
        None => {},
    }
    r.push("dev".to_owned());
    r.push(copy_string(&route.iface));
    proof {
        assert(string_views(r@) =~= spec_endpoint_route_add_args(ip@, route@));
    }
    r
}

/// Arguments of `ip` that remove the server's route.
pub fn endpoint_route_del_args(ip: &str) -> (r: Vec<String>)
    ensures
        string_views(r@) == seq!["-4"@, "route"@, "del"@, ip@ + "/32"@],
{
    let mut r: Vec<String> = Vec::new();
    r.push("-4".to_owned());
    r.push("route".to_owned());
    r.push("del".to_owned());
    r.push(host_route(ip));
    proof {
        assert(string_views(r@) =~= seq!["-4"@, "route"@, "del"@, ip@ + "/32"@]);
    }
    r
}

/// Arguments of `ip` that send one half of IPv4 into the tunnel (`add`), or
/// take it back (`!add`).
pub fn tunnel_route_args(add: bool, half: Half, iface: &str) -> (r: Vec<String>)
    ensures
        string_views(r@) == seq![
            "-4"@,
            "route"@,
            if add {
                "replace"@
            } else {
                "del"@
            },
            half_net(half),
            "dev"@,
            iface@,
        ],
{
    let mut r: Vec<String> = Vec::new();
    r.push("-4".to_owned());
    r.push("route".to_owned());
    if add {
        r.push("replace".to_owned());
    } else {
        r.push("del".to_owned());
    }
    r.push(half_text(half));
    r.push("dev".to_owned());
    r.push(iface.to_owned());
    proof {
        assert(string_views(r@) =~= seq![
            "-4"@,
            "route"@,
            if add {
                "replace"@
            } else {
                "del"@
            },
            half_net(half),
            "dev"@,
            iface@,
        ]);
    }
    r
}

/// Arguments of `nft` that remove the kill switch.
pub fn killswitch_off_args() -> (r: Vec<String>)
    ensures
        string_views(r@) == seq!["delete"@, "table"@, "inet"@, "deliriuum_direct"@],
{
    let mut r: Vec<String> = Vec::new();
    r.push("delete".to_owned());
    r.push("table".to_owned());
    r.push("inet".to_owned());
    r.push("deliriuum_direct".to_owned());
    proof {
        assert(string_views(r@) =~= seq!["delete"@, "table"@, "inet"@, "deliriuum_direct"@]);
    }
    r
}


/// The message of a command that failed: the command line, then what it
/// printed on its error output, trimmed.
pub open spec fn spec_command_failure(program: Seq<char>, args: Seq<Seq<char>>, stderr: Seq<char>) -> Seq<char> {
    program + " "@ + crate::text::spaced(args) + " a échoué : "@ + spec_trim(stderr)
}

pub fn command_failure(program: &str, args: &Vec<String>, stderr: &str) -> (r: String)
    ensures
        r@ == spec_command_failure(program@, string_views(args@), stderr@),
{
    let mut v = chars_of(program);
    push_str(&mut v, " ");
    let ghost head = v@;
    let mut i: usize = 0;
    proof {
        assert(string_views(args@).take(0) =~= Seq::<Seq<char>>::empty());
        assert(v@ =~= head + crate::text::spaced(string_views(args@).take(0)));
    }
    while i < args.len()
        invariant
            i <= args@.len(),
            v@ == head + crate::text::spaced(string_views(args@).take(i as int)),
        decreases args@.len() - i,
    {
        let ghost parts = string_views(args@).take(i + 1);
        proof {
            assert(parts.drop_last() =~= string_views(args@).take(i as int));
            assert(parts.last() == args@[i as int]@);
        }
        if i > 0 {
            push_str(&mut v, " ");
        }
        push_str(&mut v, args[i].as_str());
        proof {
            assert(v@ =~= head + crate::text::spaced(parts));
        }
        i = i + 1;
    }
    proof {
        assert(string_views(args@).take(args@.len() as int) =~= string_views(args@));
    }
    push_str(&mut v, " a échoué : ");
    push_chars(&mut v, &trim(&chars_of(stderr)));
    string_of(v)
}

} // verus!
