//! Reading of the WireGuard configuration that the client hands to the
//! service: the same `.conf` text that `wg-quick` understands.

use vstd::prelude::*;

use crate::codec::{base64_decode, base64_decoded, lowercase, to_lowercase};
use crate::text::{
    chars_of, lines, parse_unsigned, spec_lines, spec_parse_unsigned, spec_split,
    spec_split_once, spec_trim, split, split_once, string_of, trim, views,
};

verus! {

/// A tunnel configuration as the service needs it.
pub struct Config {
    pub private_key: [u8; 32],
    pub peer_public_key: [u8; 32],
    pub address: String,
    pub dns: Vec<String>,
    pub endpoint: String,
    pub allowed_ips: Vec<String>,
    pub keepalive: u16,
}

/// The character sequences of a list of strings.
pub open spec fn string_views(v: Seq<String>) -> Seq<Seq<char>> {
    Seq::new(v.len(), |i: int| v[i]@)
}

/// A configuration as plain values.
#[verifier::ext_equal]
pub struct ConfigView {
    pub private_key: Seq<u8>,
    pub peer_public_key: Seq<u8>,
    pub address: Seq<char>,
    pub dns: Seq<Seq<char>>,
    pub endpoint: Seq<char>,
    pub allowed_ips: Seq<Seq<char>>,
    pub keepalive: u16,
}

impl View for Config {
    type V = ConfigView;

    open spec fn view(&self) -> ConfigView {
        ConfigView {
            private_key: self.private_key@,
            peer_public_key: self.peer_public_key@,
            address: self.address@,
            dns: string_views(self.dns@),
            endpoint: self.endpoint@,
            allowed_ips: string_views(self.allowed_ips@),
            keepalive: self.keepalive,
        }
    }
}

/// Why a configuration text is refused.
#[derive(Debug, Clone, Copy, PartialEq, Eq)]
pub enum ConfigError {
    /// A `PrivateKey` or `PublicKey` line does not hold 32 bytes of base64.
    InvalidKey,
    MissingPrivateKey,
    MissingPeerKey,
    MissingAddress,
    MissingEndpoint,
}

/// The message shown for each refusal.
pub open spec fn config_error_message(e: ConfigError) -> Seq<char> {
    match e {
        ConfigError::InvalidKey => "ClÃ© WireGuard invalide."@,
        ConfigError::MissingPrivateKey => "ClÃ© privÃ©e absente de la configuration."@,
        ConfigError::MissingPeerKey => "ClÃ© du serveur absente de la configuration."@,
        ConfigError::MissingAddress => "Adresse du tunnel absente."@,
        ConfigError::MissingEndpoint => "Adresse du serveur absente."@,
    }
}

/// What has been read of a configuration after some of its lines.
#[verifier::ext_equal]
pub struct Reading {
    pub private_key: Option<Seq<u8>>,
    pub peer_public_key: Option<Seq<u8>>,
    pub address: Seq<char>,
    pub dns: Seq<Seq<char>>,
    pub endpoint: Seq<char>,
    pub allowed_ips: Seq<Seq<char>>,
    pub keepalive: u16,
}

/// Nothing read yet: no keys, empty fields, a keepalive of 25 seconds.
pub open spec fn fresh_reading() -> Reading {
    Reading {
        private_key: None,
        peer_public_key: None,
        address: Seq::empty(),
        dns: Seq::empty(),
        endpoint: Seq::empty(),
        allowed_ips: Seq::empty(),
        keepalive: 25,
    }
}

/// A key value: the trimmed text must decode to exactly 32 bytes.
pub open spec fn key_of(value: Seq<char>) -> Option<Seq<u8>> {
    match base64_decoded(spec_trim(value)) {
        Some(b) => if b.len() == 32 {
            Some(b)
        } else {
            None
        },
        None => None,
    }
}

/// The text before the first comma, or all of it.
pub open spec fn first_field(v: Seq<char>) -> Seq<char> {
    match spec_split_once(v, ',') {
        Some((a, _)) => a,
        None => v,
    }
}

/// Each of the sequences, trimmed.
pub open spec fn trim_each(s: Seq<Seq<char>>) -> Seq<Seq<char>> {
    Seq::new(s.len(), |i: int| spec_trim(s[i]))
}

/// The sequences that are not empty, in order.
pub open spec fn drop_empty(s: Seq<Seq<char>>) -> Seq<Seq<char>>
    decreases s.len(),
{
    if s.len() == 0 {
        s
    } else if s.last().len() > 0 {
        drop_empty(s.drop_last()).push(s.last())
    } else {
        drop_empty(s.drop_last())
    }
}

/// The effect of one `key = value` pair; `None` when a key is refused.
pub open spec fn apply_entry(r: Reading, key: Seq<char>, v: Seq<char>) -> Option<Reading> {
    if key == "privatekey"@ {
        match key_of(v) {
            Some(b) => Some(Reading { private_key: Some(b), ..r }),
            None => None,
        }
    } else if key == "publickey"@ {
        match key_of(v) {
            Some(b) => Some(Reading { peer_public_key: Some(b), ..r }),
            None => None,
        }
    } else if key == "address"@ {
        Some(Reading { address: spec_trim(first_field(v)), ..r })
    } else if key == "dns"@ {
        Some(Reading { dns: trim_each(spec_split(v, ',')), ..r })
    } else if key == "endpoint"@ {
        Some(Reading { endpoint: v, ..r })
    } else if key == "allowedips"@ {
        Some(Reading { allowed_ips: drop_empty(trim_each(spec_split(v, ','))), ..r })
    } else if key == "persistentkeepalive"@ {
        Some(
            Reading {
                keepalive: match spec_parse_unsigned(v, 65535) {
                    Some(x) => x as u16,
                    None => 25,
                },
                ..r
            },
        )
    } else {
        Some(r)
    }
}

/// The effect of one line: lines without `=` are ignored; otherwise the key is
/// compared in lower case, and both sides are trimmed.
pub open spec fn apply_line(r: Reading, line: Seq<char>) -> Option<Reading> {
    match spec_split_once(spec_trim(line), '=') {
        None => Some(r),
        Some((k, v)) => apply_entry(r, lowercase(spec_trim(k)), spec_trim(v)),
    }
}

/// The lines read in order; `None` at the first refused key.
pub open spec fn read_lines(ls: Seq<Seq<char>>, r: Reading) -> Option<Reading>
    decreases ls.len(),
{
    if ls.len() == 0 {
        Some(r)
    } else {
        match apply_line(r, ls[0]) {
            Some(next) => read_lines(ls.drop_first(), next),
            None => None,
        }
    }
}

/// What `parse` gives for a configuration text.
pub open spec fn spec_parse(text: Seq<char>) -> Result<ConfigView, ConfigError> {
    match read_lines(spec_lines(text), fresh_reading()) {
        None => Err(ConfigError::InvalidKey),
        Some(r) => match (r.private_key, r.peer_public_key) {
            (None, _) => Err(ConfigError::MissingPrivateKey),
            (_, None) => Err(ConfigError::MissingPeerKey),
            (Some(private_key), Some(peer_public_key)) => if r.address.len() == 0 {
                Err(ConfigError::MissingAddress)
            } else if r.endpoint.len() == 0 {
                Err(ConfigError::MissingEndpoint)
            } else {
                Ok(
                    ConfigView {
                        private_key,
                        peer_public_key,
                        address: r.address,
                        dns: r.dns,
                        endpoint: r.endpoint,
                        allowed_ips: r.allowed_ips,
                        keepalive: r.keepalive,
                    },
                )
            },
        },
    }
}

/// The configuration read so far, as executable values.
struct Draft {
    private_key: Option<[u8; 32]>,
    peer_public_key: Option<[u8; 32]>,
    address: String,
    dns: Vec<String>,
    endpoint: String,
    allowed_ips: Vec<String>,
    keepalive: u16,
}

impl Draft {
    spec fn reading(&self) -> Reading {
        Reading {
            private_key: match self.private_key {
                Some(k) => Some(k@),
                None => None,
            },
            peer_public_key: match self.peer_public_key {
                Some(k) => Some(k@),
                None => None,
            },
            address: self.address@,
            dns: string_views(self.dns@),
            endpoint: self.endpoint@,
            allowed_ips: string_views(self.allowed_ips@),
            keepalive: self.keepalive,
        }
    }
}

/// Whether the characters of `s` are those of `lit`.
pub(crate) fn text_is(s: &String, lit: &str) -> (r: bool)
    ensures
        r == (s@ == lit@),
{
    let other = lit.to_owned();
    s.eq(&other)
}

/// Decodes a key value: the trimmed text must be base64 for exactly 32 bytes.
fn key(value: &Vec<char>) -> (r: Result<[u8; 32], String>)
    ensures
        match r {
            Ok(k) => key_of(value@) == Some(k@),
            Err(e) => key_of(value@) is None && e@ == config_error_message(ConfigError::InvalidKey),
        },
{
    let text = string_of(trim(value));
    match base64_decode(text.as_str()) {
        Some(bytes) => {
            if bytes.len() == 32 {
                let mut k = [0u8; 32];
                let mut i: usize = 0;
                while i < 32
                    invariant
                        i <= 32,
                        bytes@.len() == 32,
                        forall|j: int| 0 <= j < i ==> k@[j] == bytes@[j],
                    decreases 32 - i,
                {
                    k[i] = bytes[i];
                    i = i + 1;
                }
                proof {
                    assert(k@ =~= bytes@);
                }
                Ok(k)
            } else {
                Err("ClÃ© WireGuard invalide.".to_owned())
            }
        },
        None => Err("ClÃ© WireGuard invalide.".to_owned()),
    }
}

/// Trims each piece and turns it into a `String`, keeping empty ones or not.
fn trimmed_strings(pieces: &Vec<Vec<char>>, keep_empty: bool) -> (r: Vec<String>)
    ensures
        keep_empty ==> string_views(r@) == trim_each(views(pieces@)),
        !keep_empty ==> string_views(r@) == drop_empty(trim_each(views(pieces@))),
{
    let mut r: Vec<String> = Vec::new();
    let mut i: usize = 0;
    while i < pieces.len()
        invariant
            i <= pieces@.len(),
            keep_empty ==> string_views(r@) == trim_each(views(pieces@)).take(i as int),
            !keep_empty ==> string_views(r@) == drop_empty(trim_each(views(pieces@)).take(i as int)),
        decreases pieces@.len() - i,
    {
        let t = trim(&pieces[i]);
        let ghost all = trim_each(views(pieces@));
        proof {
            assert(all.take(i + 1).drop_last() == all.take(i as int));
            assert(all.take(i + 1).last() == t@);
        }
        if keep_empty || t.len() > 0 {
            let ghost before = r@;
            r.push(string_of(t));
            proof {
                assert(string_views(r@) =~= string_views(before).push(all[i as int]));
            }
        }
        i = i + 1;
    }
    proof {
        assert(trim_each(views(pieces@)).take(pieces@.len() as int) == trim_each(views(pieces@)));
    }
    r
}

/// Reads the configuration text, line by line, in the format of `wg-quick`.
pub fn parse(text: &str) -> (r: Result<Config, String>)
    ensures
        match r {
            Ok(c) => spec_parse(text@) == Ok::<ConfigView, ConfigError>(c@),
            Err(e) => spec_parse(text@) matches Err(f) && e@ == config_error_message(f),
        },
{
    let chars = chars_of(text);
    let ls = lines(&chars);
    let mut d = Draft {
        private_key: None,
        peer_public_key: None,
        address: String::new(),
        dns: Vec::new(),
        endpoint: String::new(),
        allowed_ips: Vec::new(),
        keepalive: 25,
    };
    let ghost all = views(ls@);
    proof {
        assert(string_views(d.dns@) =~= Seq::<Seq<char>>::empty());
        assert(string_views(d.allowed_ips@) =~= Seq::<Seq<char>>::empty());
        assert(d.reading() =~= fresh_reading());
        assert(all.skip(0) == all);
    }
    let mut i: usize = 0;
    while i < ls.len()
        invariant
            i <= ls@.len(),
            all == views(ls@),
            all == spec_lines(text@),
            read_lines(all, fresh_reading()) == read_lines(all.skip(i as int), d.reading()),
        decreases ls@.len() - i,
    {
        proof {
            assert(all.skip(i as int).drop_first() == all.skip(i + 1));
            assert(all.skip(i as int)[0] == ls@[i as int]@);
        }
        let line = trim(&ls[i]);
        match split_once(&line, '=') {
            None => {},
            Some((k, v)) => {
                let key_name = to_lowercase(string_of(trim(&k)).as_str());
                let v = trim(&v);
                let ghost before = d.reading();
                if text_is(&key_name, "privatekey") {
                    match key(&v) {
                        Ok(b) => {
                            d.private_key = Some(b);
                        },
                        Err(e) => {
                            return Err(e);
                        },
                    }
                } else if text_is(&key_name, "publickey") {
                    match key(&v) {
                        Ok(b) => {
                            d.peer_public_key = Some(b);
                        },
                        Err(e) => {
                            return Err(e);
                        },
                    }
                } else if text_is(&key_name, "address") {
                    let first = match split_once(&v, ',') {
                        Some((a, _)) => a,
                        None => v,
                    };
                    d.address = string_of(trim(&first));
                } else if text_is(&key_name, "dns") {
                    d.dns = trimmed_strings(&split(&v, ','), true);
                } else if text_is(&key_name, "endpoint") {
                    d.endpoint = string_of(v);
                } else if text_is(&key_name, "allowedips") {
                    d.allowed_ips = trimmed_strings(&split(&v, ','), false);
                } else if text_is(&key_name, "persistentkeepalive") {
                    d.keepalive = match parse_unsigned(&v, 65535) {
                        Some(x) => x as u16,
                        None => 25,
                    };
                }
                proof {
                    assert(d.reading() =~= apply_entry(before, key_name@, v@).unwrap());
                }
            },
        }
        i = i + 1;
    }
    let ghost fin = d.reading();
    proof {
        assert(all.skip(i as int).len() == 0);
    }
    let private_key = match d.private_key {
        Some(k) => k,
        None => {
            return Err("ClÃ© privÃ©e absente de la configuration.".to_owned());
        },
    };
    let peer_public_key = match d.peer_public_key {
        Some(k) => k,
        None => {
            return Err("ClÃ© du serveur absente de la configuration.".to_owned());
        },
    };
    if d.address.as_str().is_empty() {
        return Err("Adresse du tunnel absente.".to_owned());
    }
    if d.endpoint.as_str().is_empty() {
        return Err("Adresse du serveur absente.".to_owned());
    }
    let c = Config {
        private_key,
        peer_public_key,
        address: d.address,
        dns: d.dns,
        endpoint: d.endpoint,
        allowed_ips: d.allowed_ips,
        keepalive: d.keepalive,
    };
    proof {
        assert(spec_parse(text@) == Ok::<ConfigView, ConfigError>(c@));
    }
    Ok(c)
}

} // verus!
