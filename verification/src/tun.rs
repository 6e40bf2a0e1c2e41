//! What the tunnel interfaces need besides the system calls: on macOS each
//! packet on a utun interface is preceded by 4 bytes giving its address
//! family, added on write and removed on read (else the kernel silently
//! drops everything); and the commands that configure an interface.

use vstd::prelude::*;

use crate::config::string_views;
use crate::text::{chars_of, decimal, find_first, lemma_find_first, push_decimal, slice_chars, spec_find_first, string_of};

verus! {

/// The 4 bytes of `x` in network order (`u32::to_be_bytes`).
pub open spec fn be_bytes(x: u32) -> Seq<u8> {
    seq![
        (x / 0x100_0000) as u8,
        ((x / 0x1_0000) % 0x100) as u8,
        ((x / 0x100) % 0x100) as u8,
        (x % 0x100) as u8,
    ]
}

/// The address family of an IP packet: IPv6 when its version nibble is 6.
pub open spec fn packet_family(packet: Seq<u8>, inet: u32, inet6: u32) -> u32 {
    if packet[0] / 16 == 6 {
        inet6
    } else {
        inet
    }
}

/// A packet as written to a utun interface: its family's 4 bytes, then the packet.
pub open spec fn spec_frame(packet: Seq<u8>, inet: u32, inet6: u32) -> Seq<u8> {
    be_bytes(packet_family(packet, inet, inet6)) + packet
}

/// The bytes to write to a utun interface for `packet`, with `inet` and
/// `inet6` the system's values of `AF_INET` and `AF_INET6`; nothing for an
/// empty packet.
pub fn frame_packet(packet: &[u8], inet: u32, inet6: u32) -> (r: Option<Vec<u8>>)
    ensures
        packet@.len() == 0 ==> r is None,
        packet@.len() > 0 ==> (r matches Some(f) && f@ == spec_frame(packet@, inet, inet6)),
{
    if packet.len() == 0 {
        return None;
    }
    let family: u32 = if packet[0] / 16 == 6 {
        inet6
    } else {
        inet
    };
    let mut framed: Vec<u8> = Vec::new();
    framed.push((family / 0x100_0000) as u8);
    framed.push(((family / 0x1_0000) % 0x100) as u8);
    framed.push(((family / 0x100) % 0x100) as u8);
    framed.push((family % 0x100) as u8);
    proof {
        assert(framed@ =~= be_bytes(family));
    }
    let mut i: usize = 0;
    while i < packet.len()
        invariant
            i <= packet@.len(),
            framed@ == be_bytes(family) + packet@.take(i as int),
        decreases packet@.len() - i,
    {
        framed.push(packet[i]);
        proof {
            assert(packet@.take(i + 1) =~= packet@.take(i as int).push(packet@[i as int]));
            assert(framed@ =~= be_bytes(family) + packet@.take(i + 1));
        }
        i = i + 1;
    }
    proof {
        assert(packet@.take(packet@.len() as int) =~= packet@);
    }
    Some(framed)
}

/// The packet in the first `n` bytes read from a utun interface: what
/// follows the 4 bytes of family; nothing when no more than 4 bytes came.
pub fn unframe_packet(raw: &[u8], n: usize) -> (r: Option<Vec<u8>>)
    requires
        n <= raw@.len(),
    ensures
        n <= 4 ==> r is None,
        n > 4 ==> (r matches Some(p) && p@ == raw@.subrange(4, n as int)),
{
    if n <= 4 {
        return None;
    }
    let mut p: Vec<u8> = Vec::new();
    let mut i: usize = 4;
    while i < n
        invariant
            4 <= i <= n,
            n <= raw@.len(),
            p@ == raw@.subrange(4, i as int),
        decreases n - i,
    {
        p.push(raw[i]);
        proof {
            assert(raw@.subrange(4, i + 1) =~= raw@.subrange(4, i as int).push(raw@[i as int]));
        }
        i = i + 1;
    }
    Some(p)
}

/// What is read back of a framed packet is the packet itself.
pub proof fn lemma_frame_roundtrip(packet: Seq<u8>, inet: u32, inet6: u32)
    requires
        packet.len() > 0,
    ensures
        spec_frame(packet, inet, inet6).len() > 4,
        spec_frame(packet, inet, inet6).subrange(4, spec_frame(packet, inet, inet6).len() as int)
            == packet,
{
    let f = spec_frame(packet, inet, inet6);
    assert(f.subrange(4, f.len() as int) =~= packet);
}

/// The address without its prefix length (`10.0.0.2/32` gives `10.0.0.2`).
pub open spec fn address_ip(address: Seq<char>) -> Seq<char> {
    match spec_find_first(address, '/') {
        Some(i) => address.take(i),
        None => address,
    }
}

/// The arguments of `ifconfig` that give a utun interface its address and
/// bring it up: a point-to-point interface on macOS wants the address twice.
pub fn utun_ifconfig_args(name: &str, address: &str, mtu: u32) -> (r: Vec<String>)
    ensures
        string_views(r@) == seq![
            name@,
            "inet"@,
            address_ip(address@),
            address_ip(address@),
            "mtu"@,
            decimal(mtu as nat),
            "up"@,
        ],
{
    let a = chars_of(address);
    proof {
        lemma_find_first(a@, '/');
    }
    let ip = match find_first(&a, '/') {
        Some(i) => slice_chars(&a, 0, i),
        None => slice_chars(&a, 0, a.len()),
    };
    proof {
        assert(a@.subrange(0, a@.len() as int) =~= a@);
        assert(ip@ == address_ip(address@));
        assert(ip@.subrange(0, ip@.len() as int) =~= ip@);
    }
    let mut m: Vec<char> = Vec::new();
    push_decimal(&mut m, mtu as u64);
    let mut r: Vec<String> = Vec::new();
    r.push(name.to_owned());
    r.push("inet".to_owned());
    r.push(string_of(slice_chars(&ip, 0, ip.len())));
    r.push(string_of(ip));
    r.push("mtu".to_owned());
    r.push(string_of(m));
    r.push("up".to_owned());
    proof {
        assert(string_views(r@) =~= seq![
            name@,
            "inet"@,
            address_ip(address@),
            address_ip(address@),
            "mtu"@,
            decimal(mtu as nat),
            "up"@,
        ]);
    }
    r
}

/// The arguments of `ip` that set a Linux TUN interface's MTU and bring it up.
pub fn tun_link_args(name: &str, mtu: u32) -> (r: Vec<String>)
    ensures
        string_views(r@) == seq!["link"@, "set"@, "dev"@, name@, "mtu"@, decimal(mtu as nat), "up"@],
{
    let mut m: Vec<char> = Vec::new();
    push_decimal(&mut m, mtu as u64);
    let r = vec![
        "link".to_owned(),
        "set".to_owned(),
        "dev".to_owned(),
        name.to_owned(),
        "mtu".to_owned(),
        string_of(m),
        "up".to_owned(),
    ];
    proof {
        assert(string_views(r@) =~= seq!["link"@, "set"@, "dev"@, name@, "mtu"@, decimal(mtu as nat), "up"@]);
    }
    r
}

/// The arguments of `ip` that give a Linux TUN interface its address.
pub fn tun_address_args(name: &str, address: &str) -> (r: Vec<String>)
    ensures
        string_views(r@) == seq!["address"@, "add"@, address@, "dev"@, name@],
{
    let r = vec!["address".to_owned(), "add".to_owned(), address.to_owned(), "dev".to_owned(), name.to_owned()];
    proof {
        assert(string_views(r@) =~= seq!["address"@, "add"@, address@, "dev"@, name@]);
    }
    r
}

} // verus!
