//! What the client hands over to the service: the configuration that the
//! client writes for a session is read back by the service's parser as the
//! values that the master gave.

use vstd::prelude::*;

use crate::client::{
    allowed_text, joined, keepalive_of, list_text, session_text, spec_session_conf, text_or_empty,
};
use crate::codec::{base64_decoded, base64_encoded, is_base64_char};
use crate::json::{member, strings_in, Json};
use crate::codec::lowercase;
use crate::config::{
    apply_entry, apply_line, drop_empty, first_field, fresh_reading, key_of, read_lines, spec_parse,
    trim_each, ConfigError, ConfigView, Reading,
};
use crate::text::{
    is_space, lemma_find_first, lemma_find_first_at, lemma_find_first_none, spec_find_first,
    all_digits, decimal, is_digit, lemma_decimal_digits, lemma_lines_cons, lemma_lines_empty,
    lemma_parse_decimal, line_safe, spec_lines, spec_split, spec_split_once, spec_trim, trim_end,
    trim_start,
};

verus! {

/// Without white space at either end.
pub open spec fn trimmed(s: Seq<char>) -> bool {
    s.len() > 0 ==> !is_space(s[0]) && !is_space(s.last())
}

/// Without the character `c`.
pub open spec fn lacks(s: Seq<char>, c: char) -> bool {
    forall|k: int| 0 <= k < s.len() ==> s[k] != c
}

pub proof fn lemma_trimmed(s: Seq<char>)
    requires
        trimmed(s),
    ensures
        spec_trim(s) == s,
        trim_start(s) == s,
        trim_end(s) == s,
{
}

/// A `key = value` line is read as that key, lowered, with that value.
pub proof fn lemma_entry_line(r: Reading, key: Seq<char>, v: Seq<char>)
    requires
        key.len() > 0,
        forall|k: int| 0 <= k < key.len() ==> !is_space(#[trigger] key[k]) && key[k] != '=',
        trimmed(v),
    ensures
        apply_line(r, key + " = "@ + v) == apply_entry(r, lowercase(key), v),
{
    reveal_strlit(" = ");
    let line = key + " = "@ + v;
    let n = key.len() as int;
    let t = if v.len() > 0 {
        line
    } else {
        key + " ="@
    };
    reveal_strlit(" =");
    if v.len() > 0 {
        assert(line[0] == key[0]);
        assert(line.last() == v.last());
        lemma_trimmed(line);
    } else {
        assert(line[0] == key[0]);
        assert(trim_start(line) == line);
        assert(line.drop_last() =~= key + " ="@);
        assert(trim_end(line) == trim_end(key + " ="@));
        assert((key + " ="@).last() == '=');
        assert(trim_end(key + " ="@) == key + " ="@);
    }
    assert(spec_trim(line) == t);
    assert(t[n + 1] == '=');
    assert forall|k: int| 0 <= k < n + 1 implies t[k] != '=' by {
        if k < n {
            assert(t[k] == key[k]);
        }
    }
    lemma_find_first_at(t, '=', n + 1);
    assert(spec_split_once(t, '=') == Some((t.take(n + 1), t.skip(n + 2))));
    reveal_strlit(" ");
    let kpart = t.take(n + 1);
    assert(kpart =~= key + " "@);
    assert(kpart[0] == key[0]);
    assert(trim_start(kpart) == kpart);
    assert(kpart.drop_last() =~= key);
    assert(trim_end(key) == key);
    assert(spec_trim(kpart) == key);
    let rest = t.skip(n + 2);
    if v.len() > 0 {
        assert(rest =~= " "@ + v);
        assert(rest.drop_first() =~= v);
        assert(trim_start(rest) == trim_start(v));
        lemma_trimmed(v);
        assert(spec_trim(rest) == v);
    } else {
        assert(rest =~= v);
    }
}


/// Splitting `x`, a separator, then `y` gives the pieces of `x`, then those of `y`.
pub proof fn lemma_split_concat(x: Seq<char>, y: Seq<char>)
    ensures
        spec_split(x + ","@ + y, ',') == spec_split(x, ',') + spec_split(y, ','),
    decreases x.len(),
{
    reveal_strlit(",");
    let s = x + ","@ + y;
    lemma_find_first(x, ',');
    match spec_find_first(x, ',') {
        None => {
            let n = x.len() as int;
            assert(s[n] == ',');
            assert forall|k: int| 0 <= k < n implies s[k] != ',' by {
                assert(s[k] == x[k]);
            }
            lemma_find_first_at(s, ',', n);
            assert(s.take(n) =~= x);
            assert(s.skip(n + 1) =~= y);
            assert(spec_split(x, ',') == seq![x]);
            assert(spec_split(s, ',') =~= seq![x] + spec_split(y, ','));
        },
        Some(i) => {
            assert(s[i] == x[i]);
            assert forall|k: int| 0 <= k < i implies s[k] != ',' by {
                assert(s[k] == x[k]);
            }
            lemma_find_first_at(s, ',', i);
            assert(s.take(i) =~= x.take(i));
            assert(s.skip(i + 1) =~= x.skip(i + 1) + ","@ + y);
            lemma_split_concat(x.skip(i + 1), y);
            assert(spec_split(s, ',') =~= spec_split(x, ',') + spec_split(y, ','));
        },
    }
}

/// A text without the separator is a single piece.
pub proof fn lemma_split_single(x: Seq<char>)
    requires
        lacks(x, ','),
    ensures
        spec_split(x, ',') == seq![x],
{
    lemma_find_first_none(x, ',');
}

/// An item of a list that reads back unchanged: not empty, trimmed, and
/// without a comma or a line feed.
pub open spec fn item_ok(s: Seq<char>) -> bool {
    &&& s.len() > 0
    &&& trimmed(s)
    &&& lacks(s, ',')
    &&& lacks(s, '\n')
}

pub open spec fn items_ok(items: Seq<Seq<char>>) -> bool {
    forall|k: int| 0 <= k < items.len() ==> item_ok(#[trigger] items[k])
}

/// Items joined with `", "` make a trimmed text without line feeds.
pub proof fn lemma_joined_text(items: Seq<Seq<char>>)
    requires
        items.len() > 0,
        items_ok(items),
    ensures
        joined(items, ", "@).len() > 0,
        trimmed(joined(items, ", "@)),
        lacks(joined(items, ", "@), '\n'),
    decreases items.len(),
{
    reveal_strlit(", ");
    assert(item_ok(items[0]));
    if items.len() > 1 {
        let init = items.drop_last();
        assert(items_ok(init)) by {
            assert forall|k: int| 0 <= k < init.len() implies item_ok(#[trigger] init[k]) by {
                assert(init[k] == items[k]);
            }
        }
        lemma_joined_text(init);
        let last = items.last();
        assert(item_ok(items[items.len() - 1]));
        let j = joined(items, ", "@);
        assert(j == joined(init, ", "@) + ", "@ + last);
        assert(j[0] == joined(init, ", "@)[0]);
        assert(j.last() == last.last());
        assert forall|k: int| 0 <= k < j.len() implies j[k] != '\n' by {
            let a = joined(init, ", "@).len() as int;
            if k < a {
                assert(j[k] == joined(init, ", "@)[k]);
            } else if k < a + 2 {
            } else {
                assert(j[k] == last[k - a - 2]);
            }
        }
    }
}

/// The items joined with `", "` are read back, split at commas and trimmed,
/// as the items.
pub proof fn lemma_split_joined(items: Seq<Seq<char>>)
    requires
        items.len() > 0,
        items_ok(items),
    ensures
        trim_each(spec_split(joined(items, ", "@), ',')) == items,
    decreases items.len(),
{
    reveal_strlit(", ");
    reveal_strlit(",");
    reveal_strlit(" ");
    assert(item_ok(items[0]));
    if items.len() == 1 {
        lemma_split_single(items[0]);
        lemma_trimmed(items[0]);
        assert(trim_each(seq![items[0]]) =~= items);
    } else {
        let init = items.drop_last();
        let last = items.last();
        assert(item_ok(items[items.len() - 1]));
        assert(items_ok(init)) by {
            assert forall|k: int| 0 <= k < init.len() implies item_ok(#[trigger] init[k]) by {
                assert(init[k] == items[k]);
            }
        }
        let x = joined(init, ", "@);
        let y = " "@ + last;
        assert(joined(items, ", "@) =~= x + ","@ + y);
        lemma_split_concat(x, y);
        assert(lacks(y, ',')) by {
            assert forall|k: int| 0 <= k < y.len() implies y[k] != ',' by {
                if k > 0 {
                    assert(y[k] == last[k - 1]);
                }
            }
        }
        lemma_split_single(y);
        lemma_split_joined(init);
        assert(y.drop_first() =~= last);
        lemma_trimmed(last);
        assert(spec_trim(y) == last);
        assert(trim_each(spec_split(x, ',') + seq![y]) =~= trim_each(spec_split(x, ',')).push(spec_trim(y)));
        assert(init.push(last) =~= items);
    }
}

/// Dropping the empty pieces of a list of non-empty pieces keeps them all.
pub proof fn lemma_drop_empty_none(items: Seq<Seq<char>>)
    requires
        forall|k: int| 0 <= k < items.len() ==> (#[trigger] items[k]).len() > 0,
    ensures
        drop_empty(items) == items,
    decreases items.len(),
{
    if items.len() > 0 {
        let init = items.drop_last();
        assert forall|k: int| 0 <= k < init.len() implies (#[trigger] init[k]).len() > 0 by {
            assert(init[k] == items[k]);
        }
        lemma_drop_empty_none(init);
        assert(items.last().len() > 0);
        assert(init.push(items.last()) =~= items);
    }
}


/// A value that stands on its line and reads back unchanged: trimmed and
/// without a line feed.
pub open spec fn field_ok(s: Seq<char>) -> bool {
    trimmed(s) && lacks(s, '\n')
}

/// A prefix followed by a value is a line of its own.
proof fn lemma_entry_safe(prefix: Seq<char>, v: Seq<char>)
    requires
        prefix.len() > 0,
        lacks(prefix, '\n'),
        prefix.last() != '\r',
        field_ok(v),
    ensures
        line_safe(prefix + v),
{
    let l = prefix + v;
    assert forall|k: int| 0 <= k < l.len() implies l[k] != '\n' by {
        if k < prefix.len() {
            assert(l[k] == prefix[k]);
        } else {
            assert(l[k] == v[k - prefix.len()]);
        }
    }
    if v.len() > 0 {
        assert(l.last() == v.last());
    }
}

/// The lines of the configuration text, one entry each.
pub proof fn lemma_session_lines(
    k: Seq<char>,
    a: Seq<char>,
    d: Seq<char>,
    p: Seq<char>,
    l: Seq<char>,
    e: Seq<char>,
    n: Seq<char>,
)
    requires
        field_ok(k),
        field_ok(a),
        field_ok(d),
        field_ok(p),
        field_ok(l),
        field_ok(e),
        field_ok(n),
    ensures
        spec_lines(session_text(k, a, d, p, l, e, n)) == seq!["[Interface]"@] + (seq![
            "PrivateKey = "@ + k,
        ] + (seq!["Address = "@ + a] + (seq!["DNS = "@ + d] + (seq![Seq::<char>::empty()] + (
        seq!["[Peer]"@] + (seq!["PublicKey = "@ + p] + (seq!["AllowedIPs = "@ + l] + (seq![
            "Endpoint = "@ + e,
        ] + (seq!["PersistentKeepalive = "@ + n] + Seq::<Seq<char>>::empty()))))))))),
{
    reveal_strlit("[Interface]\nPrivateKey = ");
    reveal_strlit("\nAddress = ");
    reveal_strlit("\nDNS = ");
    reveal_strlit("\n\n[Peer]\nPublicKey = ");
    reveal_strlit("\nAllowedIPs = ");
    reveal_strlit("\nEndpoint = ");
    reveal_strlit("\nPersistentKeepalive = ");
    reveal_strlit("\n");
    reveal_strlit("[Interface]");
    reveal_strlit("[Peer]");
    reveal_strlit("PrivateKey = ");
    reveal_strlit("Address = ");
    reveal_strlit("DNS = ");
    reveal_strlit("PublicKey = ");
    reveal_strlit("AllowedIPs = ");
    reveal_strlit("Endpoint = ");
    reveal_strlit("PersistentKeepalive = ");
    let nl = "\n"@;
    let empty = Seq::<char>::empty();
    let l0 = "[Interface]"@;
    let l1 = "PrivateKey = "@ + k;
    let l2 = "Address = "@ + a;
    let l3 = "DNS = "@ + d;
    let l4 = empty;
    let l5 = "[Peer]"@;
    let l6 = "PublicKey = "@ + p;
    let l7 = "AllowedIPs = "@ + l;
    let l8 = "Endpoint = "@ + e;
    let l9 = "PersistentKeepalive = "@ + n;
    let x9 = l9 + nl + empty;
    let x8 = l8 + nl + x9;
    let x7 = l7 + nl + x8;
    let x6 = l6 + nl + x7;
    let x5 = l5 + nl + x6;
    let x4 = l4 + nl + x5;
    let x3 = l3 + nl + x4;
    let x2 = l2 + nl + x3;
    let x1 = l1 + nl + x2;
    let x0 = l0 + nl + x1;
    assert(session_text(k, a, d, p, l, e, n) =~= x0);
    lemma_entry_safe("PrivateKey = "@, k);
    lemma_entry_safe("Address = "@, a);
    lemma_entry_safe("DNS = "@, d);
    lemma_entry_safe("PublicKey = "@, p);
    lemma_entry_safe("AllowedIPs = "@, l);
    lemma_entry_safe("Endpoint = "@, e);
    lemma_entry_safe("PersistentKeepalive = "@, n);
    assert(line_safe(l0));
    assert(line_safe(l4));
    assert(line_safe(l5));
    lemma_lines_empty();
    lemma_lines_cons(l9, empty);
    lemma_lines_cons(l8, x9);
    lemma_lines_cons(l7, x8);
    lemma_lines_cons(l6, x7);
    lemma_lines_cons(l5, x6);
    lemma_lines_cons(l4, x5);
    lemma_lines_cons(l3, x4);
    lemma_lines_cons(l2, x3);
    lemma_lines_cons(l1, x2);
    lemma_lines_cons(l0, x1);
}


proof fn lemma_read_cons(x: Seq<char>, rest: Seq<Seq<char>>, r: Reading)
    ensures
        read_lines(seq![x] + rest, r) == match apply_line(r, x) {
            Some(next) => read_lines(rest, next),
            None => None,
        },
{
    let s = seq![x] + rest;
    assert(s[0] == x);
    assert(s.drop_first() =~= rest);
}

/// A line without `=` changes nothing.
proof fn lemma_plain_line(r: Reading, x: Seq<char>)
    requires
        trimmed(x),
        lacks(x, '='),
    ensures
        apply_line(r, x) == Some(r),
{
    lemma_trimmed(x);
    lemma_find_first_none(x, '=');
}

/// The key names, lowered as the parser compares them.
proof fn lemma_key_names()
    ensures
        lowercase("PrivateKey"@) == "privatekey"@,
        lowercase("Address"@) == "address"@,
        lowercase("DNS"@) == "dns"@,
        lowercase("PublicKey"@) == "publickey"@,
        lowercase("AllowedIPs"@) == "allowedips"@,
        lowercase("Endpoint"@) == "endpoint"@,
        lowercase("PersistentKeepalive"@) == "persistentkeepalive"@,
{
    reveal_strlit("PrivateKey");
    reveal_strlit("privatekey");
    reveal_strlit("Address");
    reveal_strlit("address");
    reveal_strlit("DNS");
    reveal_strlit("dns");
    reveal_strlit("PublicKey");
    reveal_strlit("publickey");
    reveal_strlit("AllowedIPs");
    reveal_strlit("allowedips");
    reveal_strlit("Endpoint");
    reveal_strlit("endpoint");
    reveal_strlit("PersistentKeepalive");
    reveal_strlit("persistentkeepalive");
    assert(lowercase("PrivateKey"@) =~= "privatekey"@);
    assert(lowercase("Address"@) =~= "address"@);
    assert(lowercase("DNS"@) =~= "dns"@);
    assert(lowercase("PublicKey"@) =~= "publickey"@);
    assert(lowercase("AllowedIPs"@) =~= "allowedips"@);
    assert(lowercase("Endpoint"@) =~= "endpoint"@);
    assert(lowercase("PersistentKeepalive"@) =~= "persistentkeepalive"@);
}

/// An entry line of the configuration text is read as its key and value.
proof fn lemma_named_line(r: Reading, name: Seq<char>, prefix: Seq<char>, v: Seq<char>)
    requires
        prefix == name + " = "@,
        name.len() > 0,
        forall|k: int| 0 <= k < name.len() ==> !is_space(#[trigger] name[k]) && name[k] != '=',
        trimmed(v),
    ensures
        apply_line(r, prefix + v) == apply_entry(r, lowercase(name), v),
{
    assert(prefix + v =~= name + " = "@ + v);
    lemma_entry_line(r, name, v);
}

/// The lowered key names differ from each other.
proof fn lemma_key_names_differ()
    ensures
        "publickey"@ != "privatekey"@,
        "address"@ != "privatekey"@ && "address"@ != "publickey"@,
        "dns"@ != "privatekey"@ && "dns"@ != "publickey"@ && "dns"@ != "address"@,
        "endpoint"@ != "privatekey"@ && "endpoint"@ != "publickey"@ && "endpoint"@ != "address"@
            && "endpoint"@ != "dns"@,
        "allowedips"@ != "privatekey"@ && "allowedips"@ != "publickey"@ && "allowedips"@
            != "address"@ && "allowedips"@ != "dns"@ && "allowedips"@ != "endpoint"@,
        "persistentkeepalive"@ != "privatekey"@ && "persistentkeepalive"@ != "publickey"@
            && "persistentkeepalive"@ != "address"@ && "persistentkeepalive"@ != "dns"@
            && "persistentkeepalive"@ != "endpoint"@ && "persistentkeepalive"@ != "allowedips"@,
{
    reveal_strlit("privatekey");
    reveal_strlit("publickey");
    reveal_strlit("address");
    reveal_strlit("dns");
    reveal_strlit("endpoint");
    reveal_strlit("allowedips");
    reveal_strlit("persistentkeepalive");
    assert("publickey"@.len() != "privatekey"@.len());
    assert("address"@.len() != "privatekey"@.len() && "address"@.len() != "publickey"@.len());
    assert("dns"@.len() != "privatekey"@.len() && "dns"@.len() != "publickey"@.len()
        && "dns"@.len() != "address"@.len());
    assert("endpoint"@.len() != "privatekey"@.len() && "endpoint"@.len() != "publickey"@.len()
        && "endpoint"@.len() != "address"@.len() && "endpoint"@.len() != "dns"@.len());
    assert("allowedips"@[0] != "privatekey"@[0] && "allowedips"@.len() != "publickey"@.len()
        && "allowedips"@.len() != "address"@.len() && "allowedips"@.len() != "dns"@.len()
        && "allowedips"@.len() != "endpoint"@.len());
    assert("persistentkeepalive"@.len() != "privatekey"@.len() && "persistentkeepalive"@.len()
        != "publickey"@.len() && "persistentkeepalive"@.len() != "address"@.len()
        && "persistentkeepalive"@.len() != "dns"@.len() && "persistentkeepalive"@.len()
        != "endpoint"@.len() && "persistentkeepalive"@.len() != "allowedips"@.len());
}

proof fn lemma_private_line(r: Reading, k: Seq<char>, secret: Seq<u8>)
    requires
        trimmed(k),
        key_of(k) == Some(secret),
    ensures
        apply_line(r, "PrivateKey = "@ + k) == Some(Reading { private_key: Some(secret), ..r }),
{
    reveal_strlit("PrivateKey");
    reveal_strlit("PrivateKey = ");
    reveal_strlit(" = ");
    assert("PrivateKey = "@ =~= "PrivateKey"@ + " = "@);
    lemma_key_names();
    lemma_named_line(r, "PrivateKey"@, "PrivateKey = "@, k);
}

proof fn lemma_address_line(r: Reading, a: Seq<char>)
    requires
        item_ok(a),
    ensures
        apply_line(r, "Address = "@ + a) == Some(Reading { address: a, ..r }),
{
    reveal_strlit("Address");
    reveal_strlit("Address = ");
    reveal_strlit(" = ");
    assert("Address = "@ =~= "Address"@ + " = "@);
    lemma_key_names();
    lemma_key_names_differ();
    lemma_named_line(r, "Address"@, "Address = "@, a);
    lemma_find_first_none(a, ',');
    lemma_trimmed(a);
    assert(first_field(a) == a);
}

proof fn lemma_dns_line(r: Reading, d: Seq<char>)
    requires
        trimmed(d),
    ensures
        apply_line(r, "DNS = "@ + d) == Some(Reading { dns: trim_each(spec_split(d, ',')), ..r }),
{
    reveal_strlit("DNS");
    reveal_strlit("DNS = ");
    reveal_strlit(" = ");
    assert("DNS = "@ =~= "DNS"@ + " = "@);
    lemma_key_names();
    lemma_key_names_differ();
    lemma_named_line(r, "DNS"@, "DNS = "@, d);
}

proof fn lemma_peer_line(r: Reading, p: Seq<char>, peer: Seq<u8>)
    requires
        trimmed(p),
        key_of(p) == Some(peer),
    ensures
        apply_line(r, "PublicKey = "@ + p) == Some(Reading { peer_public_key: Some(peer), ..r }),
{
    reveal_strlit("PublicKey");
    reveal_strlit("PublicKey = ");
    reveal_strlit(" = ");
    assert("PublicKey = "@ =~= "PublicKey"@ + " = "@);
    lemma_key_names();
    lemma_key_names_differ();
    lemma_named_line(r, "PublicKey"@, "PublicKey = "@, p);
}

proof fn lemma_allowed_line(r: Reading, l: Seq<char>)
    requires
        trimmed(l),
    ensures
        apply_line(r, "AllowedIPs = "@ + l) == Some(
            Reading { allowed_ips: drop_empty(trim_each(spec_split(l, ','))), ..r },
        ),
{
    reveal_strlit("AllowedIPs");
    reveal_strlit("AllowedIPs = ");
    reveal_strlit(" = ");
    assert("AllowedIPs = "@ =~= "AllowedIPs"@ + " = "@);
    lemma_key_names();
    lemma_key_names_differ();
    lemma_named_line(r, "AllowedIPs"@, "AllowedIPs = "@, l);
}

proof fn lemma_endpoint_line(r: Reading, e: Seq<char>)
    requires
        trimmed(e),
    ensures
        apply_line(r, "Endpoint = "@ + e) == Some(Reading { endpoint: e, ..r }),
{
    reveal_strlit("Endpoint");
    reveal_strlit("Endpoint = ");
    reveal_strlit(" = ");
    assert("Endpoint = "@ =~= "Endpoint"@ + " = "@);
    lemma_key_names();
    lemma_key_names_differ();
    lemma_named_line(r, "Endpoint"@, "Endpoint = "@, e);
}

proof fn lemma_keepalive_line(r: Reading, keep: u64)
    requires
        keep <= 65535,
    ensures
        apply_line(r, "PersistentKeepalive = "@ + decimal(keep as nat)) == Some(
            Reading { keepalive: keep as u16, ..r },
        ),
{
    reveal_strlit("PersistentKeepalive");
    reveal_strlit("PersistentKeepalive = ");
    reveal_strlit(" = ");
    assert("PersistentKeepalive = "@ =~= "PersistentKeepalive"@ + " = "@);
    let n = decimal(keep as nat);
    lemma_decimal_digits(keep as nat);
    lemma_parse_decimal(keep as nat, 65535);
    assert(!is_space(n[0])) by {
        assert(is_digit(n[0]));
    }
    assert(!is_space(n.last())) by {
        assert(is_digit(n[n.len() - 1]));
    }
    lemma_key_names();
    lemma_key_names_differ();
    lemma_named_line(r, "PersistentKeepalive"@, "PersistentKeepalive = "@, n);
}

/// The decimal text of a number stands on its line.
proof fn lemma_decimal_field(keep: u64)
    ensures
        field_ok(decimal(keep as nat)),
{
    let n = decimal(keep as nat);
    lemma_decimal_digits(keep as nat);
    assert(is_digit(n[0]));
    assert(is_digit(n[n.len() - 1]));
    assert forall|j: int| 0 <= j < n.len() implies n[j] != '\n' by {
        assert(is_digit(n[j]));
    }
}

/// The configuration text reads back, through the service's parser, as its
/// values: the keys decoded, the address, the DNS and allowed addresses split
/// at commas and trimmed (the empty allowed ones dropped), the endpoint, and
/// the keepalive.
pub proof fn lemma_session_reads_back(
    k: Seq<char>,
    a: Seq<char>,
    d: Seq<char>,
    p: Seq<char>,
    l: Seq<char>,
    e: Seq<char>,
    keep: u64,
    secret: Seq<u8>,
    peer: Seq<u8>,
)
    requires
        field_ok(k),
        key_of(k) == Some(secret),
        item_ok(a),
        field_ok(d),
        field_ok(p),
        key_of(p) == Some(peer),
        field_ok(l),
        field_ok(e),
        e.len() > 0,
        keep <= 65535,
    ensures
        spec_parse(session_text(k, a, d, p, l, e, decimal(keep as nat))) == Ok::<ConfigView, ConfigError>(
            ConfigView {
                private_key: secret,
                peer_public_key: peer,
                address: a,
                dns: trim_each(spec_split(d, ',')),
                endpoint: e,
                allowed_ips: drop_empty(trim_each(spec_split(l, ','))),
                keepalive: keep as u16,
            },
        ),
{
    let n = decimal(keep as nat);
    lemma_decimal_field(keep);
    lemma_session_lines(k, a, d, p, l, e, n);
    reveal_strlit("[Interface]");
    reveal_strlit("[Peer]");
    let empty = Seq::<char>::empty();
    let r0 = fresh_reading();
    lemma_plain_line(r0, "[Interface]"@);
    lemma_private_line(r0, k, secret);
    let r1 = Reading { private_key: Some(secret), ..r0 };
    lemma_address_line(r1, a);
    let r2 = Reading { address: a, ..r1 };
    lemma_dns_line(r2, d);
    let r3 = Reading { dns: trim_each(spec_split(d, ',')), ..r2 };
    lemma_plain_line(r3, empty);
    lemma_plain_line(r3, "[Peer]"@);
    lemma_peer_line(r3, p, peer);
    let r4 = Reading { peer_public_key: Some(peer), ..r3 };
    lemma_allowed_line(r4, l);
    let r5 = Reading { allowed_ips: drop_empty(trim_each(spec_split(l, ','))), ..r4 };
    lemma_endpoint_line(r5, e);
    let r6 = Reading { endpoint: e, ..r5 };
    lemma_keepalive_line(r6, keep);
    let r7 = Reading { keepalive: keep as u16, ..r6 };
    let t9 = seq!["PersistentKeepalive = "@ + n] + Seq::<Seq<char>>::empty();
    let t8 = seq!["Endpoint = "@ + e] + t9;
    let t7 = seq!["AllowedIPs = "@ + l] + t8;
    let t6 = seq!["PublicKey = "@ + p] + t7;
    let t5 = seq!["[Peer]"@] + t6;
    let t4 = seq![empty] + t5;
    let t3 = seq!["DNS = "@ + d] + t4;
    let t2 = seq!["Address = "@ + a] + t3;
    let t1 = seq!["PrivateKey = "@ + k] + t2;
    let t0 = seq!["[Interface]"@] + t1;
    assert(read_lines(Seq::<Seq<char>>::empty(), r7) == Some(r7));
    lemma_read_cons("PersistentKeepalive = "@ + n, Seq::<Seq<char>>::empty(), r6);
    lemma_read_cons("Endpoint = "@ + e, t9, r5);
    lemma_read_cons("AllowedIPs = "@ + l, t8, r4);
    lemma_read_cons("PublicKey = "@ + p, t7, r3);
    lemma_read_cons("[Peer]"@, t6, r3);
    lemma_read_cons(empty, t5, r3);
    lemma_read_cons("DNS = "@ + d, t4, r2);
    lemma_read_cons("Address = "@ + a, t3, r1);
    lemma_read_cons("PrivateKey = "@ + k, t2, r0);
    lemma_read_cons("[Interface]"@, t1, r0);
    assert(read_lines(t0, r0) == Some(r7));
}

/// The session template, filled with key texts that decode to `secret` and
/// `peer`, an address, DNS servers and allowed addresses joined with `", "`,
/// an endpoint and a keepalive, is parsed back as exactly those values: the
/// address, every DNS server, every allowed address (none when there are
/// none), the endpoint and the keepalive. It needs at least one DNS server,
/// since an empty `DNS = ` line reads as one empty entry.
pub proof fn lemma_template_reads_back(
    k: Seq<char>,
    secret: Seq<u8>,
    p: Seq<char>,
    peer: Seq<u8>,
    address: Seq<char>,
    dns: Seq<Seq<char>>,
    allowed: Seq<Seq<char>>,
    endpoint: Seq<char>,
    keep: u16,
)
    requires
        field_ok(k),
        key_of(k) == Some(secret),
        field_ok(p),
        key_of(p) == Some(peer),
        item_ok(address),
        dns.len() > 0,
        items_ok(dns),
        items_ok(allowed),
        field_ok(endpoint),
        endpoint.len() > 0,
    ensures
        spec_parse(
            session_text(
                k,
                address,
                joined(dns, ", "@),
                p,
                joined(allowed, ", "@),
                endpoint,
                decimal(keep as nat),
            ),
        ) == Ok::<ConfigView, ConfigError>(
            ConfigView {
                private_key: secret,
                peer_public_key: peer,
                address,
                dns,
                endpoint,
                allowed_ips: allowed,
                keepalive: keep,
            },
        ),
{
    let d = joined(dns, ", "@);
    let l = joined(allowed, ", "@);
    lemma_joined_text(dns);
    lemma_split_joined(dns);
    if allowed.len() == 0 {
        assert(l == Seq::<char>::empty());
        lemma_split_single(l);
        let pieces = trim_each(spec_split(l, ','));
        assert(pieces =~= seq![Seq::<char>::empty()]);
        assert(drop_empty(pieces.drop_last()) =~= Seq::<Seq<char>>::empty());
        assert(drop_empty(pieces) =~= allowed);
    } else {
        lemma_joined_text(allowed);
        lemma_split_joined(allowed);
        assert forall|j: int| 0 <= j < allowed.len() implies (#[trigger] allowed[j]).len() > 0 by {
            assert(item_ok(allowed[j]));
        }
        lemma_drop_empty_none(allowed);
    }
    lemma_session_reads_back(k, address, d, p, l, endpoint, keep as u64, secret, peer);
}

/// The strings of a list member of the master's answer (none when the
/// member is missing or not a list).
pub open spec fn list_items(v: Option<Json>) -> Seq<Seq<char>> {
    match v {
        Some(Json::Array(items)) => strings_in(items@),
        _ => Seq::empty(),
    }
}

/// A session that the service reads back as the master gave it: an address
/// without a comma, a decodable server key, an endpoint, list items without
/// commas, each value trimmed and on one line, and a keepalive that fits in
/// 16 bits. The master may give no DNS server.
pub open spec fn readable_session(cfg: Json) -> bool {
    let address = text_or_empty(cfg, "client_address"@);
    let peer = text_or_empty(cfg, "server_public_key"@);
    let endpoint = text_or_empty(cfg, "server_endpoint"@);
    let dns = list_items(member(cfg, "client_dns"@));
    let allowed = list_items(member(cfg, "allowed_ips"@));
    &&& item_ok(address)
    &&& field_ok(peer)
    &&& key_of(peer) is Some
    &&& field_ok(endpoint)
    &&& endpoint.len() > 0
    &&& items_ok(dns)
    &&& items_ok(allowed)
    &&& keepalive_of(cfg) <= 65535
}

/// The configuration that the service reads for a session: this machine's
/// key and the master's values, all of IPv4 and IPv6 routed when the master
/// names no allowed addresses. Without DNS servers the line `DNS = ` is
/// empty, and the parser reads it, split at commas and trimmed, as a single
/// empty entry.
pub open spec fn handed_over(secret: Seq<u8>, cfg: Json) -> ConfigView {
    let allowed = list_items(member(cfg, "allowed_ips"@));
    let dns = list_items(member(cfg, "client_dns"@));
    ConfigView {
        private_key: secret,
        peer_public_key: key_of(text_or_empty(cfg, "server_public_key"@)).unwrap(),
        address: text_or_empty(cfg, "client_address"@),
        dns: if dns.len() == 0 {
            seq![Seq::<char>::empty()]
        } else {
            dns
        },
        endpoint: text_or_empty(cfg, "server_endpoint"@),
        allowed_ips: if allowed.len() == 0 {
            seq!["0.0.0.0/0"@, "::/0"@]
        } else {
            allowed
        },
        keepalive: keepalive_of(cfg) as u16,
    }
}

/// The list text of a member is its strings joined with `", "`.
proof fn lemma_list_text(v: Option<Json>)
    ensures
        list_text(v) == joined(list_items(v), ", "@),
{
}

/// The configuration that the client writes for a session is read back by
/// the service as the session's values, given the base64 text of the key.
pub proof fn lemma_session_handover(secret: Seq<u8>, cfg: Json)
    requires
        readable_session(cfg),
        secret.len() == 32,
        base64_encoded(secret).len() == 44,
        forall|j: int| 0 <= j < base64_encoded(secret).len() ==> is_base64_char(
            #[trigger] base64_encoded(secret)[j],
        ),
        base64_decoded(base64_encoded(secret)) == Some(secret),
    ensures
        spec_parse(spec_session_conf(secret, cfg)) == Ok::<ConfigView, ConfigError>(handed_over(secret, cfg)),
{
    let k = base64_encoded(secret);
    assert(field_ok(k)) by {
        assert(is_base64_char(k[0]));
        assert(is_base64_char(k[k.len() - 1]));
        assert forall|j: int| 0 <= j < k.len() implies k[j] != '\n' by {
            assert(is_base64_char(k[j]));
        }
    }
    lemma_trimmed(k);
    assert(key_of(k) == Some(secret));
    let a = text_or_empty(cfg, "client_address"@);
    let p = text_or_empty(cfg, "server_public_key"@);
    let e = text_or_empty(cfg, "server_endpoint"@);
    let dns = list_items(member(cfg, "client_dns"@));
    let allowed = list_items(member(cfg, "allowed_ips"@));
    let d = list_text(member(cfg, "client_dns"@));
    lemma_list_text(member(cfg, "client_dns"@));
    if dns.len() == 0 {
        assert(d == Seq::<char>::empty());
        assert(field_ok(d));
        lemma_split_single(d);
        assert(trim_each(spec_split(d, ',')) =~= seq![Seq::<char>::empty()]);
    } else {
        lemma_joined_text(dns);
        lemma_split_joined(dns);
    }
    let l = allowed_text(cfg);
    lemma_list_text(member(cfg, "allowed_ips"@));
    reveal_strlit("0.0.0.0/0, ::/0");
    reveal_strlit("0.0.0.0/0");
    reveal_strlit("::/0");
    reveal_strlit(", ");
    let fallback = seq!["0.0.0.0/0"@, "::/0"@];
    if allowed.len() == 0 {
        assert(l == "0.0.0.0/0, ::/0"@);
        assert(items_ok(fallback)) by {
            assert(item_ok(fallback[0]));
            assert(item_ok(fallback[1]));
        }
        assert(fallback.drop_last() =~= seq!["0.0.0.0/0"@]);
        assert(joined(seq!["0.0.0.0/0"@], ", "@) == "0.0.0.0/0"@);
        assert(fallback.last() == "::/0"@);
        assert(joined(fallback, ", "@) == "0.0.0.0/0"@ + ", "@ + "::/0"@);
        assert(joined(fallback, ", "@) =~= l);
        lemma_joined_text(fallback);
        lemma_split_joined(fallback);
        lemma_drop_empty_none(fallback);
    } else {
        lemma_joined_text(allowed);
        assert(l == joined(allowed, ", "@));
        lemma_split_joined(allowed);
        assert forall|j: int| 0 <= j < allowed.len() implies (#[trigger] allowed[j]).len() > 0 by {
            assert(item_ok(allowed[j]));
        }
        lemma_drop_empty_none(allowed);
    }
    let peer = key_of(p).unwrap();
    lemma_session_reads_back(k, a, d, p, l, e, keepalive_of(cfg), secret, peer);
    assert(spec_session_conf(secret, cfg) == session_text(k, a, d, p, l, e, decimal(keepalive_of(cfg) as nat)));
}

} // verus!
