//! The state that the WireGuard engine's threads share: a stop flag, the byte
//! counters, whether a handshake has succeeded, and when the server was last
//! heard from. The threads themselves, the sockets and the tunnel device are
//! run by the service around this library.

use std::sync::atomic::{AtomicBool, AtomicU64, Ordering};
use std::sync::Arc;

use boringtun::noise::{Tunn, TunnResult};
use boringtun::x25519::{PublicKey, StaticSecret};
use vstd::prelude::*;

use crate::config::Config;

verus! {

/// Seconds since the Unix epoch from `SystemTime::now().duration_since(UNIX_EPOCH)`,
/// or 0 where the clock is before it. The time comes from the machine:
/// nothing is stated of it.
#[verifier::external_body]
pub(crate) fn now() -> u64 {
    std::time::SystemTime::now().duration_since(std::time::UNIX_EPOCH).map(|d| d.as_secs()).unwrap_or(0)
}

/// How long the server has been silent at `now`, never negative.
pub open spec fn silence(now: u64, last_seen: u64) -> int {
    if now >= last_seen {
        now - last_seen
    } else {
        0
    }
}

/// Whether the tunnel is alive: before the first handshake the connection is
/// given 20 seconds to come up; after it, the keepalive sends a packet every
/// 25 seconds, so a minute of silence means the link is lost.
pub open spec fn spec_healthy(handshake: bool, now: u64, last_seen: u64) -> bool {
    if handshake {
        silence(now, last_seen) < 60
    } else {
        silence(now, last_seen) < 20
    }
}

/// The health of the tunnel from the shared values read at `now`.
pub fn health_of(handshake: bool, now: u64, last_seen: u64) -> (r: bool)
    ensures
        r == spec_healthy(handshake, now, last_seen),
{
    let quiet = now.saturating_sub(last_seen);
    if !handshake {
        return quiet < 20;
    }
    quiet < 60
}

/// A minute of silence is always a lost link, and a silence of less than 20
/// seconds never is.
pub proof fn lemma_health_bounds(handshake: bool, now: u64, last_seen: u64)
    ensures
        silence(now, last_seen) >= 60 ==> !spec_healthy(handshake, now, last_seen),
        silence(now, last_seen) < 20 ==> spec_healthy(handshake, now, last_seen),
{
}

/// Another handle on the value that `a` points to, from `Arc::clone`: a new
/// pointer to the same allocation, so what it points to is `a`'s own value.
#[verifier::external_body]
fn share<T>(a: &Arc<T>) -> (r: Arc<T>)
    ensures
        r == *a,
{
    Arc::clone(a)
}

/// The values that the engine's threads share.
pub struct Engine {
    pub iface: String,
    stop: Arc<AtomicBool>,
    rx: Arc<AtomicU64>,
    tx: Arc<AtomicU64>,
    handshake: Arc<AtomicBool>,
    /// When the last packet from the server arrived. It is the only reliable
    /// sign that the tunnel still lives: a change of network raises no error,
    /// the conversation just stops.
    last_seen: Arc<AtomicU64>,
}

/// Handles on the shared values, for the engine's threads.
pub struct Shared {
    pub stop: Arc<AtomicBool>,
    pub rx: Arc<AtomicU64>,
    pub tx: Arc<AtomicU64>,
    pub handshake: Arc<AtomicBool>,
    pub last_seen: Arc<AtomicU64>,
}

impl Engine {
    /// The name of the tunnel interface.
    pub closed spec fn interface(&self) -> String {
        self.iface
    }

    /// An engine for the interface `iface`: not stopped, no bytes counted, no
    /// handshake yet, and the server counted as heard from now.
    pub fn new(iface: String) -> (r: Engine)
        ensures
            r.interface() == iface,
    {
        Engine {
            iface,
            stop: Arc::new(AtomicBool::new(false)),
            rx: Arc::new(AtomicU64::new(0)),
            tx: Arc::new(AtomicU64::new(0)),
            handshake: Arc::new(AtomicBool::new(false)),
            last_seen: Arc::new(AtomicU64::new(now())),
        }
    }

    /// The engine's own handles on its shared values.
    pub closed spec fn handles(&self) -> Shared {
        Shared {
            stop: self.stop,
            rx: self.rx,
            tx: self.tx,
            handshake: self.handshake,
            last_seen: self.last_seen,
        }
    }

    /// Handles on the shared values: each points to the engine's own value.
    pub fn shared(&self) -> (r: Shared)
        ensures
            r == self.handles(),
    {
        Shared {
            stop: share(&self.stop),
            rx: share(&self.rx),
            tx: share(&self.tx),
            handshake: share(&self.handshake),
            last_seen: share(&self.last_seen),
        }
    }

    /// (handshake done, bytes received, bytes sent), as the threads left them.
    /// The values come from other threads: nothing is claimed of them.
    pub fn stats(&self) -> (bool, u64, u64) {
        (
            self.handshake.load(Ordering::Relaxed),
            self.rx.load(Ordering::Relaxed),
            self.tx.load(Ordering::Relaxed),
        )
    }

    /// Whether the tunnel is still alive: `health_of` applied to the
    /// handshake flag and the last-seen time that the threads left, and to
    /// the clock during the call. Those values come from other threads and
    /// from the machine, so nothing is claimed of the result here; the rule
    /// itself is `health_of`'s.
    pub fn healthy(&self) -> bool {
        let handshake = self.handshake.load(Ordering::Relaxed);
        let at = now();
        let last_seen = self.last_seen.load(Ordering::Relaxed);
        health_of(handshake, at, last_seen)
    }

    /// Asks the threads to stop.
    pub fn stop(&self) {
        self.stop.store(true, Ordering::Relaxed);
    }
}


#[verifier::external_type_specification]
#[verifier::external_body]
pub struct ExTunn(boringtun::noise::Tunn);

/// What boringtun hands out (`TunnResult`), with the packet copied out of
/// the buffer it was written to.
pub enum TunnOutput {
    /// A datagram to send to the server.
    ToNetwork(Vec<u8>),
    /// A decrypted IP packet for the tunnel interface.
    ToTunnel(Vec<u8>),
    /// boringtun refused the packet, for this reason.
    Failed(String),
    Done,
}

/// The largest IP packet that the library hands to boringtun for encryption,
/// in bytes: with its 32 bytes of header and tag it fills a buffer of
/// `DECRYPT_BUFFER` bytes.
pub const MAX_PACKET: usize = 65504;

/// The size of the buffer that decryption needs: boringtun may encrypt a
/// queued packet into it, and a queued packet is at most `MAX_PACKET` bytes.
pub const DECRYPT_BUFFER: usize = 65536;

/// A WireGuard session of boringtun, with the keys and the keepalive it was
/// made from. boringtun's own state is reached only through this library,
/// which never hands it a packet longer than `MAX_PACKET` bytes: every
/// packet that boringtun queues fits `MAX_PACKET`.
pub struct Tunnel {
    tunn: Tunn,
    private_key: [u8; 32],
    peer_public_key: [u8; 32],
    keepalive: u16,
}

impl Tunnel {
    /// This machine's private key.
    pub closed spec fn private_key(&self) -> [u8; 32] {
        self.private_key
    }

    /// The server's public key.
    pub closed spec fn peer_public_key(&self) -> [u8; 32] {
        self.peer_public_key
    }

    /// The persistent keepalive, in seconds.
    pub closed spec fn keepalive(&self) -> u16 {
        self.keepalive
    }
}

/// Creates boringtun's WireGuard state machine with `Tunn::new`: this
/// machine's key (`StaticSecret::from`), the server's public key
/// (`PublicKey::from`), no preshared key, the keepalive, index 0 and no rate
/// limiter; the keys and the keepalive are kept beside it. boringtun's own
/// state (timers, sessions, a random rate-limiter key) is opaque: nothing is
/// stated of it.
#[verifier::external_body]
fn tunn_new(private_key: [u8; 32], peer_public_key: [u8; 32], keepalive: u16) -> (r: Tunnel)
    ensures
        r.private_key() == private_key,
        r.peer_public_key() == peer_public_key,
        r.keepalive() == keepalive,
{
    Tunnel {
        tunn: Tunn::new(StaticSecret::from(private_key), PublicKey::from(peer_public_key), None, Some(keepalive), 0, None),
        private_key,
        peer_public_key,
        keepalive,
    }
}

/// Encrypts an IP packet with `Tunn::encapsulate`, `dst` as its buffer.
/// boringtun panics where `dst` cannot hold the packet and its 32 bytes of
/// header and tag. With a session, the packet goes out encrypted: its length
/// plus 32. Without one, the packet is queued and a handshake initiation of
/// 148 bytes goes out, or nothing while a handshake is under way, or the
/// refusal of a buffer too small for that initiation. It never hands out a
/// packet for the tunnel. Which of these comes depends on the session and
/// its timers, which are not stated.
#[verifier::external_body]
fn tunn_encapsulate(tunn: &mut Tunn, packet: &[u8], dst: &mut [u8]) -> (r: TunnOutput)
    requires
        packet@.len() + 32 <= old(dst)@.len(),
    ensures
        !(r is ToTunnel),
        r matches TunnOutput::ToNetwork(d) ==> d@.len() == packet@.len() + 32 || d@.len() == 148,
        r is Failed ==> old(dst)@.len() < 148,
{
    match tunn.encapsulate(packet, dst) {
        TunnResult::WriteToNetwork(p) => TunnOutput::ToNetwork(p.to_vec()),
        TunnResult::WriteToTunnelV4(p, _) => TunnOutput::ToTunnel(p.to_vec()),
        TunnResult::WriteToTunnelV6(p, _) => TunnOutput::ToTunnel(p.to_vec()),
        TunnResult::Err(e) => TunnOutput::Failed(format!("{e:?}")),
        TunnResult::Done => TunnOutput::Done,
    }
}

/// Decrypts a datagram from the server with `Tunn::decapsulate`, `dst` as
/// its buffer. boringtun panics where `dst` is shorter than the datagram less
/// its 16-byte header, or than a 64-byte cookie reply, or than a queued
/// packet with its 32 bytes of header and tag; a `dst` of `DECRYPT_BUFFER`
/// bytes holds every packet that this library lets boringtun queue (see
/// `Tunnel`). An empty datagram asks for what boringtun still queues: a
/// queued packet goes out encrypted, or a handshake initiation, or nothing.
/// A decrypted packet loses at least the datagram's 16-byte header and
/// 16-byte tag. What comes out otherwise depends on the session, which is
/// not stated.
#[verifier::external_body]
fn tunn_decapsulate(tunn: &mut Tunn, datagram: &[u8], dst: &mut [u8]) -> (r: TunnOutput)
    requires
        datagram@.len() <= old(dst)@.len() + 16,
        DECRYPT_BUFFER <= old(dst)@.len(),
    ensures
        datagram@.len() == 0 ==> (r is ToNetwork || r is Done),
        r matches TunnOutput::ToTunnel(p) ==> p@.len() + 32 <= datagram@.len(),
{
    match tunn.decapsulate(None, datagram, dst) {
        TunnResult::WriteToNetwork(p) => TunnOutput::ToNetwork(p.to_vec()),
        TunnResult::WriteToTunnelV4(p, _) => TunnOutput::ToTunnel(p.to_vec()),
        TunnResult::WriteToTunnelV6(p, _) => TunnOutput::ToTunnel(p.to_vec()),
        TunnResult::Err(e) => TunnOutput::Failed(format!("{e:?}")),
        TunnResult::Done => TunnOutput::Done,
    }
}

/// Runs boringtun's timers with `Tunn::update_timers`, `dst` as its buffer.
/// boringtun panics where `dst` cannot hold a 32-byte keepalive. What falls
/// due is a keepalive (an empty packet encrypted: 32 bytes) or a handshake
/// initiation (148 bytes), or nothing, or the refusal of an expired
/// connection or of a buffer too small; it never hands out a packet for the
/// tunnel. Which of these comes depends on the time, which is not stated.
#[verifier::external_body]
fn tunn_update_timers(tunn: &mut Tunn, dst: &mut [u8]) -> (r: TunnOutput)
    requires
        32 <= old(dst)@.len(),
    ensures
        !(r is ToTunnel),
        r matches TunnOutput::ToNetwork(d) ==> d@.len() == 32 || d@.len() == 148,
{
    match tunn.update_timers(dst) {
        TunnResult::WriteToNetwork(p) => TunnOutput::ToNetwork(p.to_vec()),
        TunnResult::WriteToTunnelV4(p, _) => TunnOutput::ToTunnel(p.to_vec()),
        TunnResult::WriteToTunnelV6(p, _) => TunnOutput::ToTunnel(p.to_vec()),
        TunnResult::Err(e) => TunnOutput::Failed(format!("{e:?}")),
        TunnResult::Done => TunnOutput::Done,
    }
}

/// The WireGuard session for a configuration: its private key, the server's
/// public key and the keepalive.
pub fn tunnel_for(cfg: &Config) -> (r: Tunnel)
    ensures
        r.private_key() == cfg.private_key,
        r.peer_public_key() == cfg.peer_public_key,
        r.keepalive() == cfg.keepalive,
{
    tunn_new(cfg.private_key, cfg.peer_public_key, cfg.keepalive)
}

/// What the sending thread does with a packet read from the tunnel interface.
pub struct Outbound {
    /// The datagram to send to the server.
    pub datagram: Option<Vec<u8>>,
    /// Bytes to add to the sent counter.
    pub sent: u64,
    /// Why boringtun refused the packet.
    pub error: Option<String>,
}

/// Encrypts a packet read from the tunnel interface: a datagram to send (the
/// packet encrypted, or a handshake initiation while there is no session) is
/// counted with the packet's own length; a refusal is reported. Where a
/// handshake is under way there is nothing to send, nothing to count and no
/// refusal.
pub fn encrypt(tunnel: &mut Tunnel, packet: &[u8], dst: &mut [u8]) -> (r: Outbound)
    requires
        packet@.len() <= MAX_PACKET,
        packet@.len() + 32 <= old(dst)@.len(),
    ensures
        r.datagram matches Some(d) ==> d@.len() == packet@.len() + 32 || d@.len() == 148,
        r.datagram is Some ==> r.sent == packet@.len() && r.error is None,
        r.datagram is None ==> r.sent == 0,
        r.error is Some ==> r.datagram is None && old(dst)@.len() < 148,
{
    match tunn_encapsulate(&mut tunnel.tunn, packet, dst) {
        TunnOutput::ToNetwork(d) => Outbound { datagram: Some(d), sent: sent_bytes(packet.len(), true), error: None },
        TunnOutput::Failed(e) => Outbound { datagram: None, sent: 0, error: Some(e) },
        _ => Outbound { datagram: None, sent: 0, error: None },
    }
}

/// Decrypts a datagram from the server (an empty one drains boringtun's
/// queue, which only ever gives a datagram to send or nothing); a decrypted
/// packet is at least 32 bytes shorter than the datagram. `on_decapsulated`
/// says what to do with the outcome.
pub fn decrypt(tunnel: &mut Tunnel, datagram: &[u8], dst: &mut [u8]) -> (r: TunnOutput)
    requires
        datagram@.len() <= old(dst)@.len() + 16,
        DECRYPT_BUFFER <= old(dst)@.len(),
    ensures
        datagram@.len() == 0 ==> (r is ToNetwork || r is Done),
        r matches TunnOutput::ToTunnel(p) ==> p@.len() + 32 <= datagram@.len(),
{
    tunn_decapsulate(&mut tunnel.tunn, datagram, dst)
}

/// Runs the timers: a datagram to send (a 32-byte keepalive or a 148-byte
/// handshake initiation), nothing, or the reason boringtun gave for refusing.
pub fn tick(tunnel: &mut Tunnel, dst: &mut [u8]) -> (r: Result<Option<Vec<u8>>, String>)
    requires
        32 <= old(dst)@.len(),
    ensures
        r matches Ok(Some(d)) ==> d@.len() == 32 || d@.len() == 148,
{
    match tunn_update_timers(&mut tunnel.tunn, dst) {
        TunnOutput::ToNetwork(d) => Ok(Some(d)),
        TunnOutput::Failed(e) => Err(e),
        _ => Ok(None),
    }
}

/// What the receiving thread does with an outcome of `Tunn::decapsulate`.
pub struct Reaction {
    /// Send the packet to the server.
    pub send: bool,
    /// Write the packet to the tunnel interface.
    pub deliver: bool,
    /// A handshake has succeeded.
    pub handshake: bool,
    /// Bytes to add to the received counter.
    pub received: u64,
    /// Ask boringtun again with an empty datagram, to drain its queue.
    pub again: bool,
}

/// The receiving thread's reaction: a handshake answer goes back to the
/// server and the queue is drained; a decrypted packet goes to the tunnel
/// interface and is counted; either proves the handshake. An error or the
/// end stops the drain.
pub fn on_decapsulated(result: &TunnOutput) -> (r: Reaction)
    ensures
        match *result {
            TunnOutput::ToNetwork(_) => r == (Reaction {
                send: true,
                deliver: false,
                handshake: true,
                received: 0,
                again: true,
            }),
            TunnOutput::ToTunnel(p) => r == (Reaction {
                send: false,
                deliver: true,
                handshake: true,
                received: p@.len() as u64,
                again: false,
            }),
            _ => r == (Reaction { send: false, deliver: false, handshake: false, received: 0, again: false }),
        },
{
    match result {
        TunnOutput::ToNetwork(_) => Reaction {
            send: true,
            deliver: false,
            handshake: true,
            received: 0,
            again: true,
        },
        TunnOutput::ToTunnel(p) => Reaction {
            send: false,
            deliver: true,
            handshake: true,
            received: p.len() as u64,
            again: false,
        },
        _ => Reaction { send: false, deliver: false, handshake: false, received: 0, again: false },
    }
}

/// The bytes to add to the sent counter after encrypting a packet of `read`
/// bytes read from the tunnel interface: the packet's own length, when
/// boringtun handed out a datagram to send; nothing otherwise.
pub fn sent_bytes(read: usize, to_network: bool) -> (r: u64)
    ensures
        r == (if to_network {
            read as u64
        } else {
            0
        }),
{
    if to_network {
        read as u64
    } else {
        0
    }
}

} // verus!
