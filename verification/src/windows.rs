//! What the Windows service computes around the system calls: the UTF-16
//! strings that the service manager takes, the command line and dependencies
//! of the WireGuard tunnel service, which errors of the service manager are
//! no failure, and the request line read from the named pipe.

use vstd::prelude::*;

use crate::text::{lines, push_str, spec_lines, string_of};

verus! {

/// The UTF-16 code units of a character.
pub open spec fn utf16_units(c: char) -> Seq<u16> {
    let v = c as u32;
    if v < 0x1_0000 {
        seq![v as u16]
    } else {
        seq![(0xD800 + (v - 0x1_0000) / 0x400) as u16, (0xDC00 + (v - 0x1_0000) % 0x400) as u16]
    }
}

/// The UTF-16 encoding of a text.
pub open spec fn utf16(s: Seq<char>) -> Seq<u16>
    decreases s.len(),
{
    if s.len() == 0 {
        Seq::empty()
    } else {
        utf16(s.drop_last()) + utf16_units(s.last())
    }
}

/// A text as the Windows API takes it: UTF-16, ended by a 0 unit.
pub fn wide(value: &str) -> (r: Vec<u16>)
    ensures
        r@ == utf16(value@).push(0),
{
    let mut r: Vec<u16> = Vec::new();
    let mut i: usize = 0;
    let ghost s = value@;
    proof {
        assert(s.take(0) =~= Seq::<char>::empty());
    }
    for c in it: value.chars()
        invariant
            s == value@,
            it.seq() == s,
            r@ == utf16(s.take(it.index() as int)),
    {
        let ghost k = it.index() as int;
        proof {
            assert(s.take(k + 1).drop_last() =~= s.take(k));
            assert(s.take(k + 1).last() == c);
        }
        let v = c as u32;
        proof {
            vstd::utf8::char_is_scalar(c);
        }
        if v < 0x1_0000 {
            r.push(v as u16);
            proof {
                assert(r@ =~= utf16(s.take(k)) + utf16_units(c));
            }
        } else {
            let w = v - 0x1_0000;
            r.push((0xD800 + w / 0x400) as u16);
            r.push((0xDC00 + w % 0x400) as u16);
            proof {
                assert(r@ =~= utf16(s.take(k)) + utf16_units(c));
            }
        }
    }
    proof {
        assert(s.take(s.len() as int) =~= s);
    }
    r.push(0);
    r
}

/// The services that the WireGuard tunnel service depends on, as the
/// service manager takes them: `Nsi` and `TcpIp`, each ended by a 0 unit,
/// and the list ended by another.
pub open spec fn spec_dependencies() -> Seq<u16> {
    utf16("Nsi"@).push(0) + utf16("TcpIp"@).push(0) + seq![0u16]
}

pub fn dependencies() -> (r: Vec<u16>)
    ensures
        r@ == spec_dependencies(),
{
    let mut r = wide("Nsi");
    let t = wide("TcpIp");
    let mut i: usize = 0;
    let ghost head = r@;
    while i < t.len()
        invariant
            i <= t@.len(),
            r@ == head + t@.take(i as int),
        decreases t@.len() - i,
    {
        r.push(t[i]);
        proof {
            assert(t@.take(i + 1) =~= t@.take(i as int).push(t@[i as int]));
        }
        i = i + 1;
    }
    proof {
        assert(t@.take(t@.len() as int) =~= t@);
    }
    r.push(0);
    proof {
        assert(r@ =~= spec_dependencies());
    }
    r
}

/// The command line of the WireGuard tunnel service: this program, quoted,
/// then `/service` and the configuration file, quoted.
pub open spec fn spec_command_line(exe: Seq<char>, config: Seq<char>) -> Seq<char> {
    "\""@ + exe + "\" /service \""@ + config + "\""@
}

pub fn command_line(exe: &str, config: &str) -> (r: String)
    ensures
        r@ == spec_command_line(exe@, config@),
{
    let mut v: Vec<char> = Vec::new();
    push_str(&mut v, "\"");
    push_str(&mut v, exe);
    push_str(&mut v, "\" /service \"");
    push_str(&mut v, config);
    push_str(&mut v, "\"");
    string_of(v)
}

/// The service manager's code for a service that already runs.
pub open spec fn already_running() -> i32 {
    1056
}

/// The service manager's code for a service that is not started.
pub open spec fn not_started() -> i32 {
    1062
}

/// The outcome of starting the tunnel service, given the error that
/// `StartServiceW` reported (its code, and its text): one that is already
/// running counts as started.
pub fn start_outcome(error: Option<(Option<i32>, String)>) -> (r: Result<(), String>)
    ensures
        match error {
            None => r is Ok,
            Some((code, text)) => if code == Some(already_running()) {
                r is Ok
            } else {
                r matches Err(m) && m@ == "Impossible de dÃƒÂ©marrer le tunnel WireGuard : "@ + text@
            },
        },
{
    match error {
        None => Ok(()),
        Some((code, text)) => {
            if code == Some(1056i32) {
                Ok(())
            } else {
                let mut v: Vec<char> = Vec::new();
                push_str(&mut v, "Impossible de dÃƒÂ©marrer le tunnel WireGuard : ");
                push_str(&mut v, text.as_str());
                Err(string_of(v))
            }
        },
    }
}

/// The outcome of stopping the tunnel service, given the error that
/// `ControlService` reported: one that is not started counts as stopped.
pub fn stop_outcome(error: Option<(Option<i32>, String)>) -> (r: Result<(), String>)
    ensures
        match error {
            None => r is Ok,
            Some((code, text)) => if code == Some(not_started()) {
                r is Ok
            } else {
                r matches Err(m) && m@ == "Impossible d'arrÃƒÂªter le tunnel WireGuard : "@ + text@
            },
        },
{
    match error {
        None => Ok(()),
        Some((code, text)) => {
            if code == Some(1062i32) {
                Ok(())
            } else {
                let mut v: Vec<char> = Vec::new();
                push_str(&mut v, "Impossible d'arrÃƒÂªter le tunnel WireGuard : ");
                push_str(&mut v, text.as_str());
                Err(string_of(v))
            }
        },
    }
}

/// The largest request accepted on the named pipe, in bytes.
pub open spec fn request_limit() -> int {
    1048576int
}

/// What the service does after a read on the named pipe.
pub enum PipeRead {
    /// Read again.
    More,
    /// The request is complete.
    Complete,
    /// The read failed before anything came: the caller reports the
    /// system's error.
    Failed,
    /// Give up with this message.
    Refuse(String),
}

/// After a read on the named pipe: `ok` whether it succeeded, `read` how many
/// bytes it gave, `total` how many are held now, `newline` whether they hold
/// a line feed. A failed read is an error only when nothing was read.
pub fn after_read(ok: bool, read: u32, total: usize, newline: bool) -> (r: PipeRead)
    ensures
        !ok && total == 0 ==> r is Failed,
        !ok && total > 0 ==> r is Complete,
        ok && read == 0 ==> r is Complete,
        ok && read > 0 && newline ==> r is Complete,
        ok && read > 0 && !newline && total > request_limit() ==> (r matches PipeRead::Refuse(m)
            && m@ == "Requête IPC trop volumineuse."@),
        ok && read > 0 && !newline && total <= request_limit() ==> r is More,
{
    if !ok {
        if total == 0 {
            return PipeRead::Failed;
        }
        return PipeRead::Complete;
    }
    if read == 0 || newline {
        return PipeRead::Complete;
    }
    if total > 1024 * 1024 {
        return PipeRead::Refuse("Requête IPC trop volumineuse.".to_owned());
    }
    PipeRead::More
}

/// The first line of a request's text, or nothing.
pub open spec fn spec_request_line(text: Seq<char>) -> Seq<char> {
    let ls = spec_lines(text);
    if ls.len() > 0 {
        ls[0]
    } else {
        Seq::empty()
    }
}

pub fn request_line(text: &str) -> (r: String)
    ensures
        r@ == spec_request_line(text@),
{
    let ls = lines(&crate::text::chars_of(text));
    if ls.len() > 0 {
        proof {
            assert(crate::text::views(ls@)[0] == ls@[0]@);
        }
        let mut v: Vec<char> = Vec::new();
        crate::text::push_chars(&mut v, &ls[0]);
        string_of(v)
    } else {
        String::new()
    }
}

} // verus!
