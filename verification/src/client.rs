//! The desktop client's logic: the session with the master API (tokens,
//! errors shown to the user), the device that holds the WireGuard key, the
//! configuration handed to the service, and the state of the protection.
//! The HTTP calls, the system keyring, the files and the window are handled
//! around this library.

use vstd::prelude::*;

use crate::codec::{base64_decode, base64_decoded, base64_encode, base64_encoded, public_key_of, x25519_public_key};
use crate::json::{array_items, bool_of, find_member, member, strings_in, text_of, u64_of, Json};
use crate::config::{spec_parse, ConfigError, ConfigView};
use crate::handover::{handed_over, lemma_session_handover, readable_session};
use crate::service::{spec_command, Command};
use crate::text::{
    chars_are, chars_of, decimal, find_first, lemma_find_first, push_chars, same_chars, push_decimal, push_str, slice_chars,
    spec_find_first, spec_trim, string_of, trim, trimmed_value,
};

verus! {

/// The message of an answer outside 2xx that carries no `detail`.
pub open spec fn status_message(status: u16) -> Seq<char> {
    if status == 401 {
        "E-mail ou mot de passe incorrect."@
    } else if status == 409 {
        "Ce compte existe dÃ©jÃ ."@
    } else if status == 429 {
        "Trop de tentatives. RÃ©essaie dans quelques minutes."@
    } else {
        "Erreur du serveur ("@ + decimal(status as nat) + ")."@
    }
}

/// The `detail` text of an answer body, if it is a JSON object that has one.
pub open spec fn detail_text(body: Option<Json>) -> Option<String> {
    match body {
        Some(v) => text_of(member(v, "detail"@)),
        None => None,
    }
}

/// The message shown for a refused request: the master's `detail`, or a
/// message chosen by the status.
pub open spec fn spec_detail_of(status: u16, body: Option<Json>) -> Seq<char> {
    match detail_text(body) {
        Some(d) => d@,
        None => status_message(status),
    }
}

fn detail(body: Option<&Json>) -> (r: Option<String>)
    ensures
        r == detail_text(match body {
            Some(v) => Some(*v),
            None => None,
        }),
{
    match body {
        Some(v) => v.text("detail"),
        None => None,
    }
}

/// The message for a refused request (`body` is the answer read as JSON, or
/// `None` when it is not JSON).
pub fn detail_of(status: u16, body: Option<&Json>) -> (r: String)
    ensures
        r@ == spec_detail_of(
            status,
            match body {
                Some(v) => Some(*v),
                None => None,
            },
        ),
{
    match detail(body) {
        Some(d) => d,
        None => {
            if status == 401 {
                "E-mail ou mot de passe incorrect.".to_owned()
            } else if status == 409 {
                "Ce compte existe dÃ©jÃ .".to_owned()
            } else if status == 429 {
                "Trop de tentatives. RÃ©essaie dans quelques minutes.".to_owned()
            } else {
                let mut v: Vec<char> = Vec::new();
                push_str(&mut v, "Erreur du serveur (");
                push_decimal(&mut v, status as u64);
                push_str(&mut v, ").");
                string_of(v)
            }
        },
    }
}

/// Whether an HTTP status is a success (2xx).
pub open spec fn is_success(status: u16) -> bool {
    200 <= status < 300
}

/// The message of an expired session.
pub open spec fn expired_message() -> Seq<char> {
    "Ta session a expirÃ©. Reconnecte-toi."@
}

/// The access and refresh tokens of a session.
pub struct Tokens {
    pub access: String,
    pub refresh: String,
}

/// A text member, or the empty string.
pub open spec fn text_or_empty(v: Json, key: Seq<char>) -> Seq<char> {
    match text_of(member(v, key)) {
        Some(s) => s@,
        None => Seq::empty(),
    }
}

fn text_or_empty_exec(v: &Json, key: &str) -> (r: String)
    ensures
        r@ == text_or_empty(*v, key@),
{
    match v.text(key) {
        Some(s) => s,
        None => String::new(),
    }
}

/// The tokens of a login or refresh answer; a missing token reads as empty.
pub fn tokens_from(v: &Json) -> (r: Tokens)
    ensures
        r.access@ == text_or_empty(*v, "access_token"@),
        r.refresh@ == text_or_empty(*v, "refresh_token"@),
{
    Tokens { access: text_or_empty_exec(v, "access_token"), refresh: text_or_empty_exec(v, "refresh_token") }
}

/// The session state of the client. Only the refresh token is kept in the
/// system keyring; the short-lived access token stays in memory.
pub struct App {
    pub tokens: Option<Tokens>,
    pub session_id: Option<String>,
}

impl App {
    /// No session yet.
    pub fn new() -> (r: App)
        ensures
            r.tokens is None,
            r.session_id is None,
    {
        App { tokens: None, session_id: None }
    }

    /// The access token, or the message of an expired session.
    pub fn access(&self) -> (r: Result<String, String>)
        ensures
            match self.tokens {
                Some(t) => r == Ok::<String, String>(t.access),
                None => r matches Err(e) && e@ == expired_message(),
            },
    {
        match &self.tokens {
            Some(t) => Ok(t.access.clone()),
            None => Err("Ta session a expirÃ©. Reconnecte-toi.".to_owned()),
        }
    }

    /// The refresh token, or the message of an expired session.
    pub fn refresh_token(&self) -> (r: Result<String, String>)
        ensures
            match self.tokens {
                Some(t) => r == Ok::<String, String>(t.refresh),
                None => r matches Err(e) && e@ == expired_message(),
            },
    {
        match &self.tokens {
            Some(t) => Ok(t.refresh.clone()),
            None => Err("Ta session a expirÃ©. Reconnecte-toi.".to_owned()),
        }
    }

    /// Keeps a new pair of tokens (the caller saves the refresh token).
    pub fn store(&mut self, t: Tokens)
        ensures
            final(self).tokens == Some(t),
            final(self).session_id == old(self).session_id,
    {
        self.tokens = Some(t);
    }

    /// At launch only the refresh token is kept: the session resumes with it
    /// and no access token, to be traded for a new pair.
    pub fn resume(&mut self, refresh: String)
        ensures
            final(self).tokens matches Some(t) && t.access@.len() == 0 && t.refresh == refresh,
            final(self).session_id == old(self).session_id,
    {
        self.tokens = Some(Tokens { access: String::new(), refresh });
    }

    /// Forgets the session (the caller removes the saved refresh token).
    pub fn clear(&mut self)
        ensures
            final(self).tokens is None,
            final(self).session_id is None,
    {
        self.tokens = None;
        self.session_id = None;
    }
}

/// What an answer to `/auth/refresh` calls for.
pub enum Renewal {
    /// 401 or 403: the session is over and must be forgotten.
    Expired,
    /// The request failed with this message.
    Failed(String),
    /// A new pair of tokens to keep.
    Renewed(Tokens),
}

/// The answer to a token renewal: `status`, and the body read as JSON
/// (`None` when it is not JSON).
pub fn renewal(status: u16, body: Option<&Json>) -> (r: Renewal)
    ensures
        status == 401 || status == 403 ==> r is Expired,
        !(status == 401 || status == 403) && !is_success(status) ==> (r matches Renewal::Failed(m)
            && m@ == spec_detail_of(
            status,
            match body {
                Some(v) => Some(*v),
                None => None,
            },
        )),
        !(status == 401 || status == 403) && is_success(status) && body is None ==> (r matches Renewal::Failed(
            m,
        ) && m@ == "RÃ©ponse illisible."@),
        !(status == 401 || status == 403) && is_success(status) && body.is_some() ==> (r matches Renewal::Renewed(t)
            && t.access@ == text_or_empty(*body.unwrap(), "access_token"@) && t.refresh@ == text_or_empty(
            *body.unwrap(),
            "refresh_token"@,
        )),
{
    if status == 401 || status == 403 {
        return Renewal::Expired;
    }
    if !(200 <= status && status < 300) {
        return Renewal::Failed(detail_of(status, body));
    }
    match body {
        Some(v) => Renewal::Renewed(tokens_from(v)),
        None => Renewal::Failed("RÃ©ponse illisible.".to_owned()),
    }
}

/// A result with its message as plain characters.
pub open spec fn result_view(r: Result<Json, String>) -> Result<Json, Seq<char>> {
    match r {
        Ok(v) => Ok(v),
        Err(m) => Err(m@),
    }
}

/// The outcome of a request once its final answer is in: the body for a
/// success (`null` when empty, as for 204), else the message.
pub open spec fn call_outcome(status: u16, body: Option<Json>) -> Result<Json, Seq<char>> {
    if is_success(status) {
        Ok(
            match body {
                Some(v) => v,
                None => Json::Null,
            },
        )
    } else {
        Err(spec_detail_of(status, body))
    }
}

/// The result of an authenticated call once its final answer is in: the
/// body for a success (`null` when empty, as for 204), else the message.
pub fn call_result(status: u16, body: Option<Json>) -> (r: Result<Json, String>)
    ensures
        result_view(r) == call_outcome(status, body),
        is_success(status) ==> r == Ok::<Json, String>(
            match body {
                Some(v) => v,
                None => Json::Null,
            },
        ),
        !is_success(status) ==> (r matches Err(m) && m@ == spec_detail_of(status, body)),
{
    if !(200 <= status && status < 300) {
        return Err(detail_of(status, body.as_ref()));
    }
    match body {
        Some(v) => Ok(v),
        None => Ok(Json::Null),
    }
}

/// Who is logged in, as the window shows it.
pub struct Me {
    pub email: String,
    pub verified: bool,
}

/// The account read from `/auth/me`: its e-mail (`fallback` when missing)
/// and whether it is verified (yes when not said).
pub fn me_from(v: &Json, fallback: &str) -> (r: Me)
    ensures
        r.email@ == (match text_of(member(*v, "email"@)) {
            Some(e) => e@,
            None => fallback@,
        }),
        r.verified == (match bool_of(member(*v, "is_verified"@)) {
            Some(b) => b,
            None => true,
        }),
{
    let email = match v.text("email") {
        Some(e) => e,
        None => fallback.to_owned(),
    };
    let verified = match v.flag("is_verified") {
        Some(b) => b,
        None => true,
    };
    Me { email, verified }
}

/// The message after asking for a password reset: the master's deliberately
/// neutral `detail`, or a neutral message of our own.
pub fn reset_message(body: Option<&Json>) -> (r: String)
    ensures
        r@ == (match detail_text(
            match body {
                Some(v) => Some(*v),
                None => None,
            },
        ) {
            Some(d) => d@,
            None => "Si ce compte existe, un e-mail vient de partir."@,
        }),
{
    match detail(body) {
        Some(d) => d,
        None => "Si ce compte existe, un e-mail vient de partir.".to_owned(),
    }
}

/// After registering, the login that follows fails until the e-mail is
/// verified: the account is then shown as not verified.
pub fn registered(email: String, login: Result<Me, String>) -> (r: Me)
    ensures
        match login {
            Ok(me) => r == me,
            Err(_) => r.email == email && !r.verified,
        },
{
    match login {
        Ok(me) => me,
        Err(_) => Me { email, verified: false },
    }
}


// ------------------------------------------------------------ the device

/// Whether the member `field` of `item` is the string `value`.
pub open spec fn has_text(item: Json, field: Seq<char>, value: Seq<char>) -> bool {
    match text_of(member(item, field)) {
        Some(s) => s@ == value,
        None => false,
    }
}

/// Whether the device `id` is among the listed devices.
pub open spec fn device_listed(items: Seq<Json>, id: Seq<char>) -> bool {
    exists|i: int| 0 <= i < items.len() && #[trigger] has_text(items[i], "id"@, id)
}

/// `i` is the first listed device registered with the public key `key`.
pub open spec fn first_with_key(items: Seq<Json>, key: Seq<char>, i: int) -> bool {
    &&& 0 <= i < items.len()
    &&& has_text(items[i], "public_key"@, key)
    &&& forall|j: int| 0 <= j < i ==> !#[trigger] has_text(items[j], "public_key"@, key)
}

/// The identifier of the first listed device registered with `key`, when
/// that device has one.
pub open spec fn id_for_key(items: Seq<Json>, key: Seq<char>) -> Option<String> {
    if exists|i: int| #[trigger] first_with_key(items, key, i) {
        text_of(member(items[choose|i: int| #[trigger] first_with_key(items, key, i)], "id"@))
    } else {
        None
    }
}

/// Which device this machine is, given the devices listed by the master.
pub enum DeviceChoice {
    /// The identifier kept on this machine is still listed.
    Known(String),
    /// A listed device holds this machine's public key: keep its identifier.
    /// `forget_stored` when a stale identifier was kept and goes first.
    Found { id: String, forget_stored: bool },
    /// No listed device is this machine's: register one.
    Register { forget_stored: bool },
}

fn member_is(item: &Json, field: &str, value: &str) -> (r: bool)
    ensures
        r == has_text(*item, field@, value@),
{
    match item.text(field) {
        Some(s) => chars_are(&chars_of(s.as_str()), value),
        None => false,
    }
}

fn listed(items: &Vec<Json>, id: &str) -> (r: bool)
    ensures
        r == device_listed(items@, id@),
{
    let mut i: usize = 0;
    while i < items.len()
        invariant
            i <= items@.len(),
            forall|k: int| 0 <= k < i ==> !#[trigger] has_text(items@[k], "id"@, id@),
        decreases items@.len() - i,
    {
        if member_is(&items[i], "id", id) {
            return true;
        }
        i = i + 1;
    }
    false
}

proof fn lemma_first_with_key_unique(items: Seq<Json>, key: Seq<char>, i: int)
    requires
        first_with_key(items, key, i),
    ensures
        id_for_key(items, key) == text_of(member(items[i], "id"@)),
{
    let c = choose|c: int| #[trigger] first_with_key(items, key, c);
    assert(first_with_key(items, key, c));
    if c < i {
        assert(!has_text(items[c], "public_key"@, key));
    } else if i < c {
        assert(!has_text(items[i], "public_key"@, key));
    }
}

fn id_with_key(items: &Vec<Json>, key: &str) -> (r: Option<String>)
    ensures
        r == id_for_key(items@, key@),
{
    let mut i: usize = 0;
    while i < items.len()
        invariant
            i <= items@.len(),
            forall|k: int| 0 <= k < i ==> !#[trigger] has_text(items@[k], "public_key"@, key@),
        decreases items@.len() - i,
    {
        if member_is(&items[i], "public_key", key) {
            proof {
                assert(first_with_key(items@, key@, i as int));
                lemma_first_with_key_unique(items@, key@, i as int);
            }
            return items[i].text("id");
        }
        i = i + 1;
    }
    proof {
        assert forall|c: int| !#[trigger] first_with_key(items@, key@, c) by {
            if 0 <= c < items@.len() {
                assert(!has_text(items@[c], "public_key"@, key@));
            }
        }
    }
    None
}

/// Resolves this machine's device from the master's list (`devices`, the
/// answer to `GET /devices`), the identifier kept on disk, and the public key:
/// the kept identifier while it is listed, else the device that holds the key,
/// else a new registration. The key is looked up before registering because
/// the master indexes devices by key: a lost identifier file must not end in a
/// "key already in use" refusal.
pub fn choose_device(devices: &Json, stored: Option<&str>, public: &str) -> (r: DeviceChoice)
    ensures
        stored is Some && device_listed(array_items(*devices), stored.unwrap()@) ==> (r matches DeviceChoice::Known(id) && id@ == stored.unwrap()@),
        !(stored is Some && device_listed(array_items(*devices), stored.unwrap()@)) ==> match id_for_key(array_items(*devices), public@) {
            Some(found) => r == (DeviceChoice::Found { id: found, forget_stored: stored is Some }),
            None => r == (DeviceChoice::Register { forget_stored: stored is Some }),
        },
{
    let empty: Vec<Json> = Vec::new();
    let items: &Vec<Json> = match devices {
        Json::Array(v) => v,
        _ => &empty,
    };
    proof {
        assert(items@ == array_items(*devices));
    }
    let forget_stored = match stored {
        Some(id) => {
            if listed(items, id) {
                return DeviceChoice::Known(id.to_owned());
            }
            true
        },
        None => false,
    };
    match id_with_key(items, public) {
        Some(id) => DeviceChoice::Found { id, forget_stored },
        None => DeviceChoice::Register { forget_stored },
    }
}

/// The message when the master registers a device without naming it.
pub open spec fn missing_id_message() -> Seq<char> {
    "Le serveur n'a pas renvoyÃ© d'identifiant d'appareil."@
}

/// The identifier of a newly registered device (the answer to `POST /devices`).
pub fn created_id(created: &Json) -> (r: Result<String, String>)
    ensures
        match text_of(member(*created, "id"@)) {
            Some(id) => r == Ok::<String, String>(id),
            None => r matches Err(m) && m@ == missing_id_message(),
        },
{
    match created.text("id") {
        Some(id) => Ok(id),
        None => Err("Le serveur n'a pas renvoyÃ© d'identifiant d'appareil.".to_owned()),
    }
}


// ------------------------------------------------------------ the key

/// The message when the key kept in the keyring cannot be read.
pub open spec fn unreadable_key_message() -> Seq<char> {
    "La clÃ© enregistrÃ©e est illisible."@
}

/// The private key that the keyring's text denotes: its base64 decoding,
/// when that is 32 bytes long.
pub open spec fn spec_stored_secret(stored: Seq<char>) -> Option<Seq<u8>> {
    match base64_decoded(stored) {
        Some(b) => if b.len() == 32 {
            Some(b)
        } else {
            None
        },
        None => None,
    }
}

/// The public key sent to the master for a private key: the base64 text of
/// its X25519 public key.
pub open spec fn public_text(secret: Seq<u8>) -> Seq<char> {
    base64_encoded(x25519_public_key(secret))
}

/// Reads the private key kept in the keyring.
pub fn stored_secret(stored: &str) -> (r: Result<[u8; 32], String>)
    ensures
        match spec_stored_secret(stored@) {
            Some(k) => r matches Ok(s) && s@ == k,
            None => r matches Err(m) && m@ == unreadable_key_message(),
        },
{
    let bytes = match base64_decode(stored) {
        Some(b) => b,
        None => return Err("La clÃ© enregistrÃ©e est illisible.".to_owned()),
    };
    if bytes.len() != 32 {
        return Err("La clÃ© enregistrÃ©e est illisible.".to_owned());
    }
    let mut key: [u8; 32] = [0u8; 32];
    let mut i: usize = 0;
    while i < 32
        invariant
            i <= 32,
            bytes@.len() == 32,
            key@.len() == 32,
            forall|k: int| 0 <= k < i ==> key@[k] == bytes@[k],
        decreases 32 - i,
    {
        key[i] = bytes[i];
        i = i + 1;
    }
    proof {
        assert(key@ =~= bytes@);
    }
    Ok(key)
}

/// Draws a new X25519 static secret with
/// `x25519_dalek::StaticSecret::random_from_rng(rand::thread_rng())` and hands
/// out its bytes (`StaticSecret::to_bytes`). The bytes are random: nothing is
/// stated of them.
#[verifier::external_body]
fn fresh_secret() -> (r: [u8; 32]) {
    x25519_dalek::StaticSecret::random_from_rng(rand::thread_rng()).to_bytes()
}

/// The WireGuard key pair of this machine.
pub struct Keypair {
    pub secret: [u8; 32],
    /// The base64 public key, the only part that leaves the machine.
    pub public: String,
    /// The base64 text of a newly drawn private key, to keep in the keyring.
    pub to_store: Option<String>,
}

/// The key pair: the one kept in the keyring (`stored`), or a new one drawn
/// on the first run, which the caller then keeps.
pub fn keypair(stored: Option<&str>) -> (r: Result<Keypair, String>)
    ensures
        stored is Some ==> match spec_stored_secret(stored.unwrap()@) {
            Some(k) => r matches Ok(p) && p.secret@ == k && p.public@ == public_text(k)
                && p.to_store is None,
            None => r matches Err(m) && m@ == unreadable_key_message(),
        },
        stored is None ==> (r matches Ok(p) && p.public@ == public_text(p.secret@) && (p.to_store
            matches Some(t) && t@ == base64_encoded(p.secret@) && spec_stored_secret(t@) == Some(
            p.secret@,
        ))),
{
    match stored {
        Some(text) => {
            let secret = stored_secret(text)?;
            let public = base64_encode(&public_key_of(&secret));
            Ok(Keypair { secret, public, to_store: None })
        },
        None => {
            let secret = fresh_secret();
            let text = base64_encode(&secret);
            let public = base64_encode(&public_key_of(&secret));
            Ok(Keypair { secret, public, to_store: Some(text) })
        },
    }
}


// ------------------------------------------------------------ the session

/// `parts` joined with `sep` between them.
pub open spec fn joined(parts: Seq<Seq<char>>, sep: Seq<char>) -> Seq<char>
    decreases parts.len(),
{
    if parts.len() == 0 {
        Seq::empty()
    } else if parts.len() == 1 {
        parts[0]
    } else {
        joined(parts.drop_last(), sep) + sep + parts.last()
    }
}

/// The strings of a list member joined with `", "`; empty when the member is
/// missing or not a list.
pub open spec fn list_text(v: Option<Json>) -> Seq<char> {
    match v {
        Some(Json::Array(items)) => joined(strings_in(items@), ", "@),
        _ => Seq::empty(),
    }
}

/// The addresses routed through the tunnel: those the master gives, or all
/// of IPv4 and IPv6.
pub open spec fn allowed_text(cfg: Json) -> Seq<char> {
    let a = list_text(member(cfg, "allowed_ips"@));
    if a.len() == 0 {
        "0.0.0.0/0, ::/0"@
    } else {
        a
    }
}

/// The keepalive interval: the master's, or 25 seconds.
pub open spec fn keepalive_of(cfg: Json) -> u64 {
    match u64_of(member(cfg, "persistent_keepalive"@)) {
        Some(k) => k,
        None => 25,
    }
}

/// The host part of an endpoint: what comes before its first `:`.
pub open spec fn host_of(endpoint: Seq<char>) -> Seq<char> {
    match spec_find_first(endpoint, ':') {
        Some(i) => endpoint.take(i),
        None => endpoint,
    }
}

/// The WireGuard configuration handed to the service for a session that the
/// master opened (`cfg`, the answer to `POST /sessions/connect`).
pub open spec fn spec_session_conf(secret: Seq<u8>, cfg: Json) -> Seq<char> {
    session_text(
        base64_encoded(secret),
        text_or_empty(cfg, "client_address"@),
        list_text(member(cfg, "client_dns"@)),
        text_or_empty(cfg, "server_public_key"@),
        allowed_text(cfg),
        text_or_empty(cfg, "server_endpoint"@),
        decimal(keepalive_of(cfg) as nat),
    )
}

/// The configuration text with its values: private key, address, DNS,
/// server key, allowed addresses, endpoint and keepalive.
pub open spec fn session_text(
    key: Seq<char>,
    address: Seq<char>,
    dns: Seq<char>,
    peer: Seq<char>,
    allowed: Seq<char>,
    endpoint: Seq<char>,
    keepalive: Seq<char>,
) -> Seq<char> {
    "[Interface]\nPrivateKey = "@ + key + "\nAddress = "@ + address + "\nDNS = "@ + dns
        + "\n\n[Peer]\nPublicKey = "@ + peer + "\nAllowedIPs = "@ + allowed + "\nEndpoint = "@
        + endpoint + "\nPersistentKeepalive = "@ + keepalive + "\n"@
}

fn list_text_exec(v: Option<&Json>) -> (r: Vec<char>)
    ensures
        r@ == list_text(
            match v {
                Some(x) => Some(*x),
                None => None,
            },
        ),
{
    let items = match v {
        Some(Json::Array(items)) => items,
        _ => return Vec::new(),
    };
    let mut out: Vec<char> = Vec::new();
    let mut first = true;
    let mut i: usize = 0;
    proof {
        assert(items@.take(0) =~= Seq::<Json>::empty());
    }
    while i < items.len()
        invariant
            i <= items@.len(),
            out@ == joined(strings_in(items@.take(i as int)), ", "@),
            first == (strings_in(items@.take(i as int)).len() == 0),
        decreases items@.len() - i,
    {
        proof {
            assert(items@.take(i + 1).drop_last() =~= items@.take(i as int));
            assert(items@.take(i + 1).last() == items@[i as int]);
        }
        match &items[i] {
            Json::Str(s) => {
                let ghost parts = strings_in(items@.take(i as int));
                proof {
                    assert(parts.push(s@).drop_last() =~= parts);
                }
                if !first {
                    push_str(&mut out, ", ");
                }
                push_str(&mut out, s.as_str());
                first = false;
            },
            _ => {},
        }
        i = i + 1;
    }
    proof {
        assert(items@.take(items@.len() as int) =~= items@);
    }
    out
}

/// What the client keeps of a session that the master opened.
pub struct Session {
    /// The WireGuard configuration for the service.
    pub conf: String,
    /// The node's name, as the window shows it.
    pub node: String,
    /// The master's identifier of the session, to close it later.
    pub session_id: Option<String>,
}

/// The session that the master opened (`cfg`), with this machine's private
/// key: the configuration for the service, the node to show and the session
/// to close later. The configuration is the same text that `wg-quick`
/// understands, and the service's parser reads it back as this key and the
/// master's values for every session that `readable_session` describes.
pub fn session_from(secret: &[u8; 32], cfg: &Json) -> (r: Session)
    ensures
        r.conf@ == spec_session_conf(secret@, *cfg),
        readable_session(*cfg) ==> spec_parse(r.conf@) == Ok::<ConfigView, ConfigError>(
            handed_over(secret@, *cfg),
        ),
        r.node@ == host_of(text_or_empty(*cfg, "server_endpoint"@)),
        r.session_id == text_of(member(*cfg, "session_id"@)),
{
    let endpoint = chars_of(text_or_empty_exec(cfg, "server_endpoint").as_str());
    proof {
        lemma_find_first(endpoint@, ':');
    }
    let host = match find_first(&endpoint, ':') {
        Some(i) => slice_chars(&endpoint, 0, i),
        None => slice_chars(&endpoint, 0, endpoint.len()),
    };
    proof {
        assert(endpoint@.subrange(0, endpoint@.len() as int) =~= endpoint@);
    }
    let dns = list_text_exec(cfg.get("client_dns"));
    let mut allowed = list_text_exec(cfg.get("allowed_ips"));
    if allowed.len() == 0 {
        allowed = chars_of("0.0.0.0/0, ::/0");
    }
    let keep: u64 = match cfg.unsigned("persistent_keepalive") {
        Some(k) => k,
        None => 25,
    };
    let key_text = base64_encode(secret);
    proof {
        if readable_session(*cfg) {
            lemma_session_handover(secret@, *cfg);
        }
    }
    let mut out: Vec<char> = Vec::new();
    push_str(&mut out, "[Interface]\nPrivateKey = ");
    push_str(&mut out, key_text.as_str());
    push_str(&mut out, "\nAddress = ");
    push_str(&mut out, text_or_empty_exec(cfg, "client_address").as_str());
    push_str(&mut out, "\nDNS = ");
    push_chars(&mut out, &dns);
    push_str(&mut out, "\n\n[Peer]\nPublicKey = ");
    push_str(&mut out, text_or_empty_exec(cfg, "server_public_key").as_str());
    push_str(&mut out, "\nAllowedIPs = ");
    push_chars(&mut out, &allowed);
    push_str(&mut out, "\nEndpoint = ");
    push_chars(&mut out, &endpoint);
    push_str(&mut out, "\nPersistentKeepalive = ");
    push_decimal(&mut out, keep);
    push_str(&mut out, "\n");
    Session { conf: string_of(out), node: string_of(host), session_id: cfg.text("session_id") }
}

/// After a refused connection and the closing of a session left open, the
/// second refusal is the one reported.
pub fn retry_error(first: String, second: String) -> (r: String)
    ensures
        r@ == second@,
{
    if same_chars(&chars_of(first.as_str()), &chars_of(second.as_str())) {
        first
    } else {
        second
    }
}


// ------------------------------------------------------------ this machine

/// A host name without its trailing `.local` suffixes (`trim_end_matches`).
pub open spec fn strip_local(s: Seq<char>) -> Seq<char>
    decreases s.len(),
{
    if s.len() >= 6 && s.subrange(s.len() - 6, s.len() as int) == ".local"@ {
        strip_local(s.subrange(0, s.len() - 6))
    } else {
        s
    }
}

/// The name of the operating system as the window shows it.
pub open spec fn os_label(os: Seq<char>) -> Seq<char> {
    if os == "macos"@ {
        "macOS"@
    } else if os == "windows"@ {
        "Windows"@
    } else if os == "linux"@ {
        "Linux"@
    } else {
        os
    }
}

/// The host name read from the output of `hostname`, unless empty.
pub open spec fn host_name(output: Option<Seq<char>>) -> Option<Seq<char>> {
    match output {
        Some(o) => {
            let h = strip_local(spec_trim(o));
            if h.len() > 0 {
                Some(h)
            } else {
                None
            }
        },
        None => None,
    }
}

/// The device name shown in "Mes appareils" on the master.
pub open spec fn spec_device_name(output: Option<Seq<char>>, os: Seq<char>) -> Seq<char> {
    match host_name(output) {
        Some(h) => h + " · Direct "@ + os_label(os),
        None => "Deliriuum Direct · "@ + os_label(os),
    }
}

fn strip_local_exec(v: &Vec<char>) -> (r: Vec<char>)
    ensures
        r@ == strip_local(v@),
{
    let mut end: usize = v.len();
    let suffix = chars_of(".local");
    let mut done = false;
    proof {
        assert(v@.subrange(0, v@.len() as int) =~= v@);
    }
    while !done && end >= 6
        invariant
            end <= v@.len(),
            suffix@ == ".local"@,
            strip_local(v@.subrange(0, end as int)) == strip_local(v@),
            done ==> strip_local(v@.subrange(0, end as int)) == v@.subrange(0, end as int),
        decreases end, if done { 0int } else { 1int },
    {
        let tail = slice_chars(v, end - 6, end);
        let s = Ghost(v@.subrange(0, end as int));
        proof {
            assert(s@.subrange(s@.len() - 6, s@.len() as int) =~= tail@);
        }
        if same_chars(&tail, &suffix) {
            proof {
                assert(s@.subrange(0, s@.len() - 6) =~= v@.subrange(0, end - 6));
            }
            end = end - 6;
        } else {
            done = true;
        }
    }
    slice_chars(v, 0, end)
}

/// The device name: `output` is what `hostname` printed (when it ran and
/// printed UTF-8), `os` the name Rust gives the operating system.
pub fn device_name(output: Option<&str>, os: &str) -> (r: String)
    ensures
        r@ == spec_device_name(
            match output {
                Some(o) => Some(o@),
                None => None,
            },
            os@,
        ),
{
    let os_chars = chars_of(os);
    let label = if chars_are(&os_chars, "macos") {
        chars_of("macOS")
    } else if chars_are(&os_chars, "windows") {
        chars_of("Windows")
    } else if chars_are(&os_chars, "linux") {
        chars_of("Linux")
    } else {
        os_chars
    };
    let host = match output {
        Some(o) => {
            let h = strip_local_exec(&trim(&chars_of(o)));
            if h.len() > 0 {
                Some(h)
            } else {
                None
            }
        },
        None => None,
    };
    let mut out: Vec<char> = Vec::new();
    match host {
        Some(h) => {
            push_chars(&mut out, &h);
            push_str(&mut out, " · Direct ");
        },
        None => {
            push_str(&mut out, "Deliriuum Direct · ");
        },
    }
    push_chars(&mut out, &label);
    string_of(out)
}

/// A setting kept in the application's folder: the file's trimmed content,
/// unless empty.
pub fn setting_value(content: &str) -> (r: Option<String>)
    ensures
        match r {
            Some(s) => s@ == spec_trim(content@) && s@.len() > 0,
            None => spec_trim(content@).len() == 0,
        },
{
    trimmed_value(content)
}

// ------------------------------------------------------------ the tunnel

/// The state of the tunnel as the service reports it.
pub struct Status {
    pub up: bool,
    /// The firewall blocks everything: the tunnel fell without being cut.
    pub blocked: bool,
    pub rx: u64,
    pub tx: u64,
}

/// The message when the service refuses without saying why.
pub open spec fn tunnel_failed_message() -> Seq<char> {
    "Le tunnel n'a pas pu être établi."@
}

/// An answer of the service on the local socket: accepted only when it says
/// `"ok": true`; otherwise its `error`, or a message of our own.
pub open spec fn spec_socket_reply(v: Json) -> Result<Json, Seq<char>> {
    if bool_of(member(v, "ok"@)) == Some(true) {
        Ok(v)
    } else {
        match text_of(member(v, "error"@)) {
            Some(e) => Err(e@),
            None => Err(tunnel_failed_message()),
        }
    }
}

pub fn socket_reply(v: Json) -> (r: Result<Json, String>)
    ensures
        match spec_socket_reply(v) {
            Ok(x) => r == Ok::<Json, String>(x),
            Err(m) => r matches Err(e) && e@ == m,
        },
{
    match v.flag("ok") {
        Some(true) => Ok(v),
        _ => match v.text("error") {
            Some(e) => Err(e),
            None => Err("Le tunnel n'a pas pu être établi.".to_owned()),
        },
    }
}

/// An answer of the service on the Windows named pipe: refused only when it
/// says `"ok": false`, with its `error` or a message of our own.
pub open spec fn spec_pipe_reply(v: Json) -> Result<Json, Seq<char>> {
    if bool_of(member(v, "ok"@)) == Some(false) {
        match text_of(member(v, "error"@)) {
            Some(e) => Err(e@),
            None => Err("Erreur du service Deliriuum."@),
        }
    } else {
        Ok(v)
    }
}

pub fn pipe_reply(v: Json) -> (r: Result<Json, String>)
    ensures
        match spec_pipe_reply(v) {
            Ok(x) => r == Ok::<Json, String>(x),
            Err(m) => r matches Err(e) && e@ == m,
        },
{
    match v.flag("ok") {
        Some(false) => match v.text("error") {
            Some(e) => Err(e),
            None => Err("Erreur du service Deliriuum.".to_owned()),
        },
        _ => Ok(v),
    }
}

/// A counter of an answer, 0 where missing.
pub open spec fn counter(v: Json, key: Seq<char>) -> u64 {
    match u64_of(member(v, key)) {
        Some(n) => n,
        None => 0,
    }
}

/// A flag of an answer, false where missing.
pub open spec fn flag_or_false(v: Json, key: Seq<char>) -> bool {
    match bool_of(member(v, key)) {
        Some(b) => b,
        None => false,
    }
}

fn counter_exec(v: &Json, key: &str) -> (r: u64)
    ensures
        r == counter(*v, key@),
{
    match v.unsigned(key) {
        Some(n) => n,
        None => 0,
    }
}

fn flag_exec(v: &Json, key: &str) -> (r: bool)
    ensures
        r == flag_or_false(*v, key@),
{
    match v.flag(key) {
        Some(b) => b,
        None => false,
    }
}

/// A request that names only its command: `{"cmd":...}`.
fn command_only(cmd: &str) -> (r: Json)
    ensures
        text_of(member(r, "cmd"@)) matches Some(c) && c@ == cmd@,
        member(r, "config"@) is None,
{
    let mut fields: Vec<(String, Json)> = Vec::new();
    let key = "cmd".to_owned();
    let value = cmd.to_owned();
    proof {
        reveal_strlit("cmd");
        reveal_strlit("config");
        assert("config"@ != "cmd"@) by {
            assert("config"@[1] != "cmd"@[1]);
        }
    }
    fields.push((key, Json::Str(value)));
    proof {
        assert(find_member(fields@.drop_first(), "config"@) is None);
    }
    Json::Object(fields)
}

/// The client's side of the service, which holds the tunnel: this client has
/// no privilege and only talks to it, one request and one answer at a time.
/// Each method takes the service's answer once checked (`socket_reply` or
/// `pipe_reply`), or the failure to reach it.
pub struct Backend;

impl Backend {
    /// `{"cmd":"up","config":...}`: the service reads it as a request to
    /// bring the tunnel up with `config`.
    pub fn up_request(config: String) -> (r: Json)
        ensures
            spec_command(r) == Command::Up(config),
    {
        let mut fields: Vec<(String, Json)> = Vec::new();
        let cmd = "cmd".to_owned();
        let up = "up".to_owned();
        let key = "config".to_owned();
        proof {
            reveal_strlit("cmd");
            reveal_strlit("up");
            reveal_strlit("config");
            assert(key@ != "cmd"@) by {
                assert(key@[1] != "cmd"@[1]);
            }
        }
        fields.push((cmd, Json::Str(up)));
        fields.push((key, Json::Str(config)));
        let r = Json::Object(fields);
        proof {
            assert(fields@[0].0@ == "cmd"@);
            assert(member(r, "cmd"@) == Some(Json::Str(fields@[0].1->Str_0)));
            assert(fields@.drop_first()[0].0@ == "config"@);
            assert(find_member(fields@.drop_first(), "config"@) == Some(Json::Str(config)));
            assert(member(r, "config"@) == Some(Json::Str(config)));
        }
        r
    }

    /// `{"cmd":"down"}`: the service reads it as a request to take the
    /// tunnel down.
    pub fn down_request() -> (r: Json)
        ensures
            spec_command(r) == Command::Down,
    {
        proof {
            reveal_strlit("up");
            reveal_strlit("down");
            assert("down"@.len() != "up"@.len());
        }
        command_only("down")
    }

    /// `{"cmd":"status"}`: the service reads it as a request for the state
    /// of the tunnel.
    pub fn status_request() -> (r: Json)
        ensures
            spec_command(r) == Command::Status,
    {
        proof {
            reveal_strlit("up");
            reveal_strlit("down");
            reveal_strlit("status");
            assert("status"@.len() != "up"@.len());
            assert("status"@.len() != "down"@.len());
        }
        command_only("status")
    }

    /// The tunnel came up, or the reason it did not.
    pub fn up(&mut self, reply: Result<Json, String>) -> (r: Result<(), String>)
        ensures
            match reply {
                Ok(_) => r is Ok,
                Err(e) => r == Err::<(), String>(e),
            },
    {
        match reply {
            Ok(_) => Ok(()),
            Err(e) => Err(e),
        }
    }

    /// The counters read just before the tunnel went down, which the client
    /// then reports to the master.
    pub fn down(&mut self, reply: Result<Json, String>) -> (r: Result<(u64, u64), String>)
        ensures
            match reply {
                Ok(v) => r == Ok::<(u64, u64), String>((counter(v, "rx"@), counter(v, "tx"@))),
                Err(e) => r == Err::<(u64, u64), String>(e),
            },
    {
        match reply {
            Ok(v) => Ok((counter_exec(&v, "rx"), counter_exec(&v, "tx"))),
            Err(e) => Err(e),
        }
    }

    /// What actually runs, so that the window never shows a protection that
    /// does not exist.
    pub fn status(&self, reply: Result<Json, String>) -> (r: Result<Status, String>)
        ensures
            match reply {
                Ok(v) => r matches Ok(st) && st.up == flag_or_false(v, "up"@) && st.blocked
                    == flag_or_false(v, "blocked"@) && st.rx == counter(v, "rx"@) && st.tx
                    == counter(v, "tx"@),
                Err(e) => r matches Err(m) && m == e,
            },
    {
        match reply {
            Ok(v) => Ok(
                Status {
                    up: flag_exec(&v, "up"),
                    blocked: flag_exec(&v, "blocked"),
                    rx: counter_exec(&v, "rx"),
                    tx: counter_exec(&v, "tx"),
                },
            ),
            Err(e) => Err(e),
        }
    }
}

/// What the window shows of the protection.
#[derive(PartialEq, Eq, Structural)]
pub enum ProtectionState {
    /// Nothing is up.
    Off,
    /// The tunnel is up.
    On,
    /// The tunnel fell and the firewall holds all traffic back.
    Blocked,
}

impl ProtectionState {
    /// `"off"`, `"on"` or `"blocked"`.
    pub fn label(&self) -> (r: &'static str)
        ensures
            r@ == (match self {
                ProtectionState::Off => "off"@,
                ProtectionState::On => "on"@,
                ProtectionState::Blocked => "blocked"@,
            }),
    {
        match self {
            ProtectionState::Off => "off",
            ProtectionState::On => "on",
            ProtectionState::Blocked => "blocked",
        }
    }
}

/// The protection as the window shows it.
pub struct Protection {
    pub state: ProtectionState,
    pub node: String,
}

/// The tunnel outlives the window: at launch, the client asks the service
/// what really runs rather than starting from nothing. `node` is the node's
/// name kept from the last connection, `status` the service's answer.
pub fn protection(node: Option<String>, status: Result<Status, String>) -> (r: Protection)
    ensures
        match node {
            Some(n) => r.node == n,
            None => r.node@ == "node1"@,
        },
        r.state == (match status {
            Err(_) => ProtectionState::Off,
            Ok(st) => if st.up {
                ProtectionState::On
            } else if st.blocked {
                ProtectionState::Blocked
            } else {
                ProtectionState::Off
            },
        }),
{
    let node = match node {
        Some(n) => n,
        None => "node1".to_owned(),
    };
    let state = match status {
        Err(_) => ProtectionState::Off,
        Ok(st) => if st.up {
            ProtectionState::On
        } else if st.blocked {
            ProtectionState::Blocked
        } else {
            ProtectionState::Off
        },
    };
    Protection { state, node }
}


/// The body of a device registration (`POST /devices`): the device's name
/// and its public key, and nothing else. The private key never leaves the
/// machine.
pub fn device_request(name: String, public: String) -> (r: Json)
    ensures
        r matches Json::Object(fields) && fields@.len() == 2,
        text_of(member(r, "name"@)) == Some(name),
        text_of(member(r, "public_key"@)) == Some(public),
{
    proof {
        reveal_strlit("name");
        reveal_strlit("public_key");
        assert("public_key"@ != "name"@) by {
            assert("public_key"@.len() != "name"@.len());
        }
    }
    let mut fields: Vec<(String, Json)> = Vec::new();
    fields.push(("name".to_owned(), Json::Str(name)));
    fields.push(("public_key".to_owned(), Json::Str(public)));
    let r = Json::Object(fields);
    proof {
        assert(find_member(fields@.drop_first(), "public_key"@) == Some(fields@[1].1));
    }
    r
}

/// An authenticated request refused with 401 is renewed once and replayed.
pub fn renews_on(status: u16) -> (r: bool)
    ensures
        r == (status == 401),
{
    status == 401
}

/// The session to close at the master when disconnecting: the one in memory,
/// else the one kept on disk from before the window was closed.
pub fn session_to_close(in_memory: Option<String>, kept: Option<String>) -> (r: Option<String>)
    ensures
        r == (match in_memory {
            Some(s) => Some(s),
            None => kept,
        }),
{
    match in_memory {
        Some(s) => Some(s),
        None => kept,
    }
}


// ------------------------------------------------------------ authenticated calls

/// Where an authenticated request stands.
#[derive(PartialEq, Eq, Structural)]
pub enum CallPhase {
    /// The request was sent once.
    First,
    /// The tokens are being renewed after a 401.
    Renewing,
    /// The request was sent again with the renewed token.
    Second,
    Done,
}

/// What the caller does next for an authenticated request.
pub enum CallStep {
    /// Send the request with this access token; answer `CallEvent::Answered`.
    Send { bearer: String },
    /// Renew the tokens (`/auth/refresh`); answer `CallEvent::Renewed`.
    Renew,
    /// The request is over.
    Done { result: Result<Json, String> },
}

/// What the caller reports.
pub enum CallEvent {
    /// The master answered with this status and body (`None` when not JSON).
    Answered { status: u16, body: Option<Json> },
    /// The renewal succeeded or failed with this message.
    Renewed(Result<(), String>),
}

/// An authenticated request: on 401 the tokens are renewed once and the
/// request is replayed; the second answer is final.
pub struct AuthCall {
    pub phase: CallPhase,
}

impl AuthCall {
    /// Starts a request with the session's access token.
    pub fn start(app: &App) -> (r: (AuthCall, CallStep))
        ensures
            match app.tokens {
                Some(t) => r.0.phase == CallPhase::First && r.1 == (CallStep::Send { bearer: t.access }),
                None => r.0.phase == CallPhase::Done && (r.1 matches CallStep::Done { result: Err(m) }
                    && m@ == expired_message()),
            },
    {
        match app.access() {
            Ok(t) => (AuthCall { phase: CallPhase::First }, CallStep::Send { bearer: t }),
            Err(m) => (AuthCall { phase: CallPhase::Done }, CallStep::Done { result: Err(m) }),
        }
    }

    /// The next step once `event` reports the outcome of the last one; `app`
    /// holds the tokens as they stand after a renewal.
    pub fn step(self, event: CallEvent, app: &App) -> (r: (AuthCall, CallStep))
        requires
            self.phase != CallPhase::Done,
            self.phase == CallPhase::Renewing <==> event is Renewed,
        ensures
            self.phase == CallPhase::First ==> match event {
                CallEvent::Answered { status, body } => if status == 401 {
                    r.0.phase == CallPhase::Renewing && r.1 is Renew
                } else {
                    r.0.phase == CallPhase::Done && (r.1 matches CallStep::Done { result }
                        && result_view(result) == call_outcome(status, body))
                },
                _ => false,
            },
            self.phase == CallPhase::Renewing ==> match event {
                CallEvent::Renewed(Err(m)) => r.0.phase == CallPhase::Done && r.1 == (CallStep::Done {
                    result: Err(m),
                }),
                _ => match app.tokens {
                    Some(t) => r.0.phase == CallPhase::Second && r.1 == (CallStep::Send {
                        bearer: t.access,
                    }),
                    None => r.0.phase == CallPhase::Done && (r.1 matches CallStep::Done {
                        result: Err(m),
                    } && m@ == expired_message()),
                },
            },
            self.phase == CallPhase::Second ==> match event {
                CallEvent::Answered { status, body } => r.0.phase == CallPhase::Done && (
                r.1 matches CallStep::Done { result } && result_view(result) == call_outcome(status, body)),
                _ => false,
            },
    {
        match event {
            CallEvent::Answered { status, body } => {
                if self.phase == CallPhase::First && renews_on(status) {
                    (AuthCall { phase: CallPhase::Renewing }, CallStep::Renew)
                } else {
                    (AuthCall { phase: CallPhase::Done }, CallStep::Done { result: call_result(status, body) })
                }
            },
            CallEvent::Renewed(Err(m)) => (AuthCall { phase: CallPhase::Done }, CallStep::Done { result: Err(m) }),
            CallEvent::Renewed(Ok(())) => match app.access() {
                Ok(t) => (AuthCall { phase: CallPhase::Second }, CallStep::Send { bearer: t }),
                Err(m) => (AuthCall { phase: CallPhase::Done }, CallStep::Done { result: Err(m) }),
            },
        }
    }
}


// ------------------------------------------------------------ retries

/// What follows a device registration.
pub enum AfterRegistration {
    /// The first registration was refused: the key may belong to another
    /// account or to a device this account does not see. Draw a new key and
    /// register again, rather than show an incomprehensible conflict.
    Rotate,
    /// The device's identifier, or why there is none.
    Finish(Result<String, String>),
}

/// The decision after `POST /devices` answered `result` (`first` for the
/// first attempt): one refusal leads to a new key, a second is final.
pub fn after_registration(first: bool, result: Result<Json, String>) -> (r: AfterRegistration)
    ensures
        match result {
            Ok(created) => r matches AfterRegistration::Finish(id) && match text_of(member(created, "id"@)) {
                Some(x) => id == Ok::<String, String>(x),
                None => id matches Err(m) && m@ == missing_id_message(),
            },
            Err(e) => if first {
                r is Rotate
            } else {
                r == AfterRegistration::Finish(Err(e))
            },
        },
{
    match result {
        Ok(created) => AfterRegistration::Finish(created_id(&created)),
        Err(e) => if first {
            AfterRegistration::Rotate
        } else {
            AfterRegistration::Finish(Err(e))
        },
    }
}

/// What follows a request to open a session.
pub enum AfterConnect {
    /// The first request was refused: a session may have stayed open at the
    /// master when the client was killed. Close it and ask again, once.
    CloseAndRetry { first: String },
    /// The session's configuration, or the message shown.
    Finish(Result<Json, String>),
}

/// The decision after `POST /sessions/connect` answered `result`; `first`
/// holds the first refusal when this was the second request.
pub fn after_connect(first: Option<String>, result: Result<Json, String>) -> (r: AfterConnect)
    ensures
        match result {
            Ok(cfg) => r == AfterConnect::Finish(Ok(cfg)),
            Err(e) => match first {
                None => r == (AfterConnect::CloseAndRetry { first: e }),
                Some(_) => r matches AfterConnect::Finish(Err(m)) && m@ == e@,
            },
        },
{
    match result {
        Ok(cfg) => AfterConnect::Finish(Ok(cfg)),
        Err(e) => match first {
            None => AfterConnect::CloseAndRetry { first: e },
            Some(f) => AfterConnect::Finish(Err(retry_error(f, e))),
        },
    }
}

} // verus!
