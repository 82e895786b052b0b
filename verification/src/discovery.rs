//! Discovery files: `<temp>/gpui-driver/<pid>.json`, written on init so the CLI can
//! find running instrumented apps, and the auth token they carry.

use vstd::prelude::*;
use rand::RngCore;
use vstd::string::*;
use crate::text::{decimal, decimal_string, push_char};
use crate::protocol::{DiscoveryFile, PROTOCOL_VERSION};

verus! {

/// The name of an app's discovery file inside the discovery directory: `<pid>.json`.
pub fn discovery_path(pid: u32) -> (name: String)
    ensures
        name@ == decimal(pid as nat) + ".json"@,
{
    let mut name = decimal_string(pid as u64);
    name.append(".json");
    name
}

/// The lower-case hex digit for `v < 16`.
pub open spec fn hex_digit(v: int) -> char {
    if v < 10 {
        (48 + v) as char
    } else {
        (87 + v) as char
    }
}

/// Two lower-case hex digits per byte, most significant first (`{:02x}`).
pub open spec fn hex_text(bytes: Seq<u8>) -> Seq<char>
    decreases bytes.len(),
{
    if bytes.len() == 0 {
        Seq::empty()
    } else {
        hex_text(bytes.drop_last()) + seq![hex_digit(bytes.last() as int / 16), hex_digit(bytes.last() as int % 16)]
    }
}

/// A lower-case ASCII hex digit.
pub open spec fn is_hex_digit(c: char) -> bool {
    ('0' <= c && c <= '9') || ('a' <= c && c <= 'f')
}

proof fn lemma_hex_text_shape(bytes: Seq<u8>)
    ensures
        hex_text(bytes).len() == 2 * bytes.len(),
        forall|i: int| 0 <= i < hex_text(bytes).len() ==> is_hex_digit(#[trigger] hex_text(bytes)[i]),
    decreases bytes.len(),
{
    if bytes.len() > 0 {
        lemma_hex_text_shape(bytes.drop_last());
    }
}

fn hex_char(v: u8) -> (c: char)
    requires
        v < 16,
    ensures
        c == hex_digit(v as int),
{
    if v < 10 {
        (48u8 + v) as char
    } else {
        (87u8 + v) as char
    }
}

/// Lower-case hex encoding of a byte sequence.
pub fn hex_encode(bytes: &[u8]) -> (s: String)
    ensures
        s@ == hex_text(bytes@),
        s@.len() == 2 * bytes@.len(),
        forall|i: int| 0 <= i < s@.len() ==> is_hex_digit(#[trigger] s@[i]),
{
    let mut s = String::new();
    let mut i: usize = 0;
    while i < bytes.len()
        invariant
            i <= bytes.len(),
            s@ == hex_text(bytes@.subrange(0, i as int)),
        decreases bytes.len() - i,
    {
        let b = bytes[i];
        push_char(&mut s, hex_char(b / 16));
        push_char(&mut s, hex_char(b % 16));
        proof {
            let post = bytes@.subrange(0, i + 1);
            assert(post.drop_last() =~= bytes@.subrange(0, i as int));
            assert(post.last() == b);
        }
        i = i + 1;
    }
    assert(bytes@.subrange(0, bytes.len() as int) =~= bytes@);
    proof {
        lemma_hex_text_shape(bytes@);
    }
    s
}

/// 32 bytes from the thread-local random generator (`rand::rng().fill_bytes`).
/// Nothing is stated of the bytes but their number.
#[verifier::external_body]
fn random_token_bytes() -> (bytes: Vec<u8>)
    ensures
        bytes.len() == 32,
{
    let mut bytes = [0u8; 32];
    rand::rng().fill_bytes(&mut bytes);
    bytes.to_vec()
}

/// A fresh auth token: 32 random bytes as 64 lower-case hex characters.
pub fn generate_token() -> (token: String)
    ensures
        token@.len() == 64,
        forall|i: int| 0 <= i < 64 ==> is_hex_digit(#[trigger] token@[i]),
        exists|bytes: Seq<u8>| bytes.len() == 32 && token@ == hex_text(bytes),
{
    let bytes = random_token_bytes();
    let token = hex_encode(bytes.as_slice());
    token
}

/// The RFC 3339 text (UTC, whole seconds, `Z` suffix) of the instant `unix_secs`
/// seconds after the Unix epoch, as `chrono` writes it.
pub uninterp spec fn rfc3339_utc_text(unix_secs: i64) -> Seq<char>;

/// `chrono::DateTime::from_timestamp(unix_secs, 0)` rendered by
/// `to_rfc3339_opts(SecondsFormat::Secs, true)`. `from_timestamp` refuses only instants
/// outside chrono's date range (about 262,000 years either side of year 0), so every
/// instant from the epoch to the end of year 9999 is accepted.
#[verifier::external_body]
pub(crate) fn format_rfc3339_utc(unix_secs: i64) -> (r: Option<String>)
    ensures
        r matches Some(s) ==> s@ == rfc3339_utc_text(unix_secs),
        0 <= unix_secs <= 253402300799 ==> r is Some,
{
    match chrono::DateTime::from_timestamp(unix_secs, 0) {
        Some(t) => Some(t.to_rfc3339_opts(chrono::SecondsFormat::Secs, true)),
        None => None,
    }
}

/// The discovery file an app writes on start: its name, pid, server port and token,
/// the protocol version, and the start instant (`unix_secs` after the epoch) in
/// RFC 3339. `None` only for an instant outside the representable date range.
pub fn discovery_file(app_name: String, pid: u32, port: u16, token: String, unix_secs: i64) -> (f: Option<DiscoveryFile>)
    ensures
        0 <= unix_secs <= 253402300799 ==> f is Some,
        f matches Some(d) ==> d.app_name == app_name && d.pid == pid && d.port == port && d.token == token
            && d.protocol_version == PROTOCOL_VERSION && d.started_at@ == rfc3339_utc_text(unix_secs),
{
    match format_rfc3339_utc(unix_secs) {
        Some(started_at) => Some(DiscoveryFile { app_name, pid, port, token, protocol_version: PROTOCOL_VERSION, started_at }),
        None => None,
    }
}

} // verus!
