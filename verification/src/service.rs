//! The decisions of the privileged service: which requests it accepts, who
//! may send them, what it reports of the tunnel, and what it answers.
//! The socket, the processes and the tunnel engines are run around it.

use vstd::prelude::*;

use crate::config::{config_error_message, parse, spec_parse, Config};
use crate::json::{member, text_of, Json};
use crate::text::{
    chars_of, lines, parse_unsigned, spec_lines, spec_parse_unsigned, spec_trim, spec_words,
    trimmed_value, words, chars_are, decimal, is_space, is_digit, lemma_decimal_digits,
    lemma_lines_cons, lemma_lines_single, lemma_parse_decimal, lemma_words_cons, lemma_words_single,
    line_safe,
};

verus! {

/// Only the machine's administrators may drive the tunnel: the peer's
/// credentials must have been read from the socket, and the peer must be
/// root or a member of the `admin` group.
pub open spec fn spec_peer_allowed(credentials_read: bool, uid: u32, in_admin_group: bool) -> bool {
    credentials_read && (uid == 0 || in_admin_group)
}

pub fn peer_allowed(credentials_read: bool, uid: u32, in_admin_group: bool) -> (r: bool)
    ensures
        r == spec_peer_allowed(credentials_read, uid, in_admin_group),
{
    credentials_read && (uid == 0 || in_admin_group)
}

/// The engine is built in unless `DELIRIUUM_ENGINE` asks for `wg-quick`.
pub fn use_boringtun(engine_var: Option<String>) -> (r: bool)
    ensures
        r == !(engine_var matches Some(v) && v@ == "wg-quick"@),
{
    match engine_var {
        Some(v) => !chars_are(&chars_of(v.as_str()), "wg-quick"),
        None => true,
    }
}

/// The interface that `wg-quick` noted in its name file: the trimmed content,
/// unless empty.
pub fn iface_from_name_file(content: &str) -> (r: Option<String>)
    ensures
        match r {
            Some(s) => s@ == spec_trim(content@) && s@.len() > 0,
            None => spec_trim(content@).len() == 0,
        },
{
    trimmed_value(content)
}

/// A counter column of `wg show <iface> transfer`, or 0.
pub open spec fn column_count(cols: Seq<Seq<char>>, i: int) -> u64 {
    if i < cols.len() {
        match spec_parse_unsigned(cols[i], 0xffff_ffff_ffff_ffff) {
            Some(x) => x as u64,
            None => 0,
        }
    } else {
        0
    }
}

/// The (received, sent) counters in the first line of `wg show <iface>
/// transfer`: its second and third fields, each 0 where missing or unreadable.
pub open spec fn spec_transfer(out: Seq<char>) -> (u64, u64) {
    let ls = spec_lines(out);
    if ls.len() == 0 {
        (0, 0)
    } else {
        let cols = spec_words(ls[0]);
        (column_count(cols, 1), column_count(cols, 2))
    }
}

/// The counters of `wg show <iface> transfer` read back whole: for a peer's
/// key and any received and sent byte counts (up to the largest `u64`), the
/// line `key<TAB>received<TAB>sent` reads as those two counts, alone or
/// followed by the lines of other peers.
pub proof fn lemma_transfer_counts_read(k: Seq<char>, rx: u64, tx: u64, rest: Seq<char>)
    requires
        k.len() > 0,
        forall|i: int| 0 <= i < k.len() ==> !is_space(#[trigger] k[i]),
    ensures
        spec_transfer(k + "\t"@ + decimal(rx as nat) + "\t"@ + decimal(tx as nat)) == (rx, tx),
        spec_transfer(k + "\t"@ + decimal(rx as nat) + "\t"@ + decimal(tx as nat) + "\n"@ + rest)
            == (rx, tx),
{
    reveal_strlit("\t");
    reveal_strlit("\n");
    let a = decimal(rx as nat);
    let b = decimal(tx as nat);
    lemma_decimal_digits(rx as nat);
    lemma_decimal_digits(tx as nat);
    lemma_parse_decimal(rx as nat, 0xffff_ffff_ffff_ffff);
    lemma_parse_decimal(tx as nat, 0xffff_ffff_ffff_ffff);
    assert forall|i: int| 0 <= i < a.len() implies !is_space(#[trigger] a[i]) by {
        assert(is_digit(a[i]));
    }
    assert forall|i: int| 0 <= i < b.len() implies !is_space(#[trigger] b[i]) by {
        assert(is_digit(b[i]));
    }
    let l = k + "\t"@ + a + "\t"@ + b;
    let tail = a + seq!['\t'] + b;
    assert(l =~= k + seq!['\t'] + tail);
    lemma_words_single(b);
    lemma_words_cons(a, '\t', b);
    lemma_words_cons(k, '\t', tail);
    assert(spec_words(l) =~= seq![k, a, b]);
    assert forall|i: int| 0 <= i < l.len() implies l[i] != '\n' by {
        let n = k.len() as int;
        if i < n {
            assert(l[i] == k[i]);
        } else if i == n {
        } else if i < n + 1 + a.len() {
            assert(l[i] == a[i - n - 1]);
        } else if i == n + 1 + a.len() {
        } else {
            assert(l[i] == b[i - n - 2 - a.len()]);
        }
    }
    assert(l.last() == b.last());
    assert(is_digit(b[b.len() - 1]));
    assert(line_safe(l));
    lemma_lines_single(l);
    lemma_lines_cons(l, rest);
    assert(spec_lines(l + "\n"@ + rest)[0] == l);
}

pub fn transfer_counts(out: &str) -> (r: (u64, u64))
    ensures
        r == spec_transfer(out@),
{
    let ls = lines(&chars_of(out));
    if ls.len() == 0 {
        return (0, 0);
    }
    let cols = words(&ls[0]);
    let rx = if cols.len() > 1 {
        match parse_unsigned(&cols[1], 0xffff_ffff_ffff_ffff) {
            Some(x) => x,
            None => 0,
        }
    } else {
        0
    };
    let tx = if cols.len() > 2 {
        match parse_unsigned(&cols[2], 0xffff_ffff_ffff_ffff) {
            Some(x) => x,
            None => 0,
        }
    } else {
        0
    };
    (rx, tx)
}

/// The real state of the tunnel, so that the client never shows a protection
/// that does not exist: the built-in engine's statistics when it runs, else
/// the `wg-quick` interface's counters when it is up, else down.
pub open spec fn spec_tunnel_state(engine: Option<(bool, u64, u64)>, wg: Option<(u64, u64)>) -> (
    bool,
    u64,
    u64,
) {
    match engine {
        Some(s) => s,
        None => match wg {
            Some((rx, tx)) => (true, rx, tx),
            None => (false, 0, 0),
        },
    }
}

pub fn tunnel_state(engine: Option<(bool, u64, u64)>, wg: Option<(u64, u64)>) -> (r: (bool, u64, u64))
    ensures
        r == spec_tunnel_state(engine, wg),
{
    match engine {
        Some(s) => s,
        None => match wg {
            Some((rx, tx)) => (true, rx, tx),
            None => (false, 0, 0),
        },
    }
}

/// A request read from the socket.
pub enum Command {
    Up(String),
    UpWithoutConfig,
    Down,
    Status,
    Unknown,
}

/// The command that a request names: `{"cmd":"up","config":...}`,
/// `{"cmd":"down"}` or `{"cmd":"status"}`.
pub open spec fn spec_command(req: Json) -> Command {
    match text_of(member(req, "cmd"@)) {
        Some(c) => if c@ == "up"@ {
            match text_of(member(req, "config"@)) {
                Some(config) => Command::Up(config),
                None => Command::UpWithoutConfig,
            }
        } else if c@ == "down"@ {
            Command::Down
        } else if c@ == "status"@ {
            Command::Status
        } else {
            Command::Unknown
        },
        None => Command::Unknown,
    }
}

pub fn command_of(req: &Json) -> (r: Command)
    ensures
        r == spec_command(*req),
{
    match req.text("cmd") {
        Some(c) => {
            let cs = chars_of(c.as_str());
            if chars_are(&cs, "up") {
                match req.text("config") {
                    Some(config) => Command::Up(config),
                    None => Command::UpWithoutConfig,
                }
            } else if chars_are(&cs, "down") {
                Command::Down
            } else if chars_are(&cs, "status") {
                Command::Status
            } else {
                Command::Unknown
            }
        },
        None => Command::Unknown,
    }
}

/// An answer on the socket.
pub enum Reply {
    /// `{"ok":true,"up":true}`
    Started,
    /// `{"ok":false,"error":...}`
    Failed(String),
    /// `{"ok":true,"up":false,"rx":...,"tx":...}`: the counters read just
    /// before the tunnel went down.
    Stopped { rx: u64, tx: u64 },
    /// `{"ok":true,"up":...,"rx":...,"tx":...}`, with `"blocked":false` where
    /// the platform reports it.
    State { up: bool, rx: u64, tx: u64 },
}

/// The answer to a request that is not carried out: a missing configuration
/// or an unknown command.
pub open spec fn spec_refusal(cmd: Command) -> Option<Seq<char>> {
    match cmd {
        Command::UpWithoutConfig => Some("Configuration manquante."@),
        Command::Unknown => Some("Commande inconnue."@),
        _ => None,
    }
}

pub fn refusal(cmd: &Command) -> (r: Option<Reply>)
    ensures
        match spec_refusal(*cmd) {
            Some(m) => r matches Some(Reply::Failed(s)) && s@ == m,
            None => r is None,
        },
{
    match cmd {
        Command::UpWithoutConfig => Some(Reply::Failed("Configuration manquante.".to_owned())),
        Command::Unknown => Some(Reply::Failed("Commande inconnue.".to_owned())),
        _ => None,
    }
}

/// The answer once the tunnel was brought up, or failed to come up.
pub fn reply_to_up(result: Result<(), String>) -> (r: Reply)
    ensures
        match result {
            Ok(()) => r is Started,
            Err(e) => r == Reply::Failed(e),
        },
{
    match result {
        Ok(()) => Reply::Started,
        Err(e) => Reply::Failed(e),
    }
}

/// The answer once the tunnel was taken down, with the counters read before.
pub fn reply_to_down(before: (bool, u64, u64), result: Result<(), String>) -> (r: Reply)
    ensures
        match result {
            Ok(()) => r == (Reply::Stopped { rx: before.1, tx: before.2 }),
            Err(e) => r == Reply::Failed(e),
        },
{
    match result {
        Ok(()) => Reply::Stopped { rx: before.1, tx: before.2 },
        Err(e) => Reply::Failed(e),
    }
}

/// The answer to a status request.
pub fn reply_to_status(state: (bool, u64, u64)) -> (r: Reply)
    ensures
        r == (Reply::State { up: state.0, rx: state.1, tx: state.2 }),
{
    Reply::State { up: state.0, rx: state.1, tx: state.2 }
}


/// How the tunnel is brought up: by the built-in engine, with the parsed
/// configuration, or by `wg-quick`, which reads the text itself.
pub enum UpPlan {
    Engine(Config),
    WgQuick,
}

/// The plan for an `up` request: with the built-in engine the configuration
/// must parse first, and its refusal is the answer.
pub fn up_plan(boringtun: bool, config: &str) -> (r: Result<UpPlan, String>)
    ensures
        boringtun ==> match spec_parse(config@) {
            Ok(v) => r matches Ok(UpPlan::Engine(c)) && c@ == v,
            Err(f) => r matches Err(m) && m@ == config_error_message(f),
        },
        !boringtun ==> r matches Ok(UpPlan::WgQuick),
{
    if boringtun {
        match parse(config) {
            Ok(c) => Ok(UpPlan::Engine(c)),
            Err(e) => Err(e),
        }
    } else {
        Ok(UpPlan::WgQuick)
    }
}

/// What the Windows service does for a request read on its named pipe.
pub enum PipeAction {
    /// Report whether the WireGuard tunnel service runs.
    Report,
    /// Stop the WireGuard tunnel service.
    Stop,
    /// Start the WireGuard tunnel service with this configuration, which
    /// parsed.
    Start(String),
    /// Answer at once.
    Answer(Reply),
}

/// The Windows service's decision for a request: a configuration is checked
/// before the tunnel service is touched, and a missing configuration or an
/// unknown command is answered at once.
pub fn pipe_action(req: &Json) -> (r: PipeAction)
    ensures
        match spec_command(*req) {
            Command::Status => r is Report,
            Command::Down => r is Stop,
            Command::Up(config) => match spec_parse(config@) {
                Ok(_) => r == PipeAction::Start(config),
                Err(f) => r matches PipeAction::Answer(Reply::Failed(m)) && m@ == config_error_message(
                    f,
                ),
            },
            cmd => r matches PipeAction::Answer(Reply::Failed(m)) && spec_refusal(cmd) == Some(m@),
        },
{
    let cmd = command_of(req);
    match cmd {
        Command::Status => PipeAction::Report,
        Command::Down => PipeAction::Stop,
        Command::Up(config) => match parse(config.as_str()) {
            Ok(_) => PipeAction::Start(config),
            Err(e) => PipeAction::Answer(Reply::Failed(e)),
        },
        Command::UpWithoutConfig => PipeAction::Answer(
            Reply::Failed("Configuration manquante.".to_owned()),
        ),
        Command::Unknown => PipeAction::Answer(Reply::Failed("Commande inconnue.".to_owned())),
    }
}

} // verus!
