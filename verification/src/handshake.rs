//! The WebSocket handshake: which database the client names, which version
//! of the protocol both sides speak, and what the server answers.

use vstd::prelude::*;
use vstd::string::*;
use crate::host::{bytes_content, extract_namespace, header_bytes, host_fault, is_namespace_of};
use crate::version::Version;

verus! {

/// The byte of a comma, which separates the subprotocols that a client
/// offers.
pub const COMMA: u8 = 44;

/// Whether a byte may stand in a header value that is read as text.
pub open spec fn is_visible_ascii(b: u8) -> bool {
    (32 <= b && b < 127) || b == 9
}

/// Whether a header value can be read as text.
pub open spec fn is_text(hdr: Seq<u8>) -> bool {
    forall|k: int| 0 <= k < hdr.len() ==> is_visible_ascii(#[trigger] hdr[k])
}

/// Whether a byte of a text header is white space: a blank or a tab.
pub open spec fn is_blank(b: u8) -> bool {
    b == 32 || b == 9
}

/// The lower-case form of an ASCII letter; every other byte is itself.
pub open spec fn lower(b: u8) -> u8 {
    if 65 <= b && b <= 90 {
        (b + 32) as u8
    } else {
        b
    }
}

/// Whether `hdr[a..b]` is one of the items that the commas of `hdr`
/// separate.
pub open spec fn is_item(hdr: Seq<u8>, a: int, b: int) -> bool {
    &&& 0 <= a <= b <= hdr.len()
    &&& (a == 0 || hdr[a - 1] == COMMA)
    &&& (b == hdr.len() || hdr[b] == COMMA)
    &&& forall|k: int| a <= k < b ==> hdr[k] != COMMA
}

/// Whether `hdr[a..b]`, without the blanks around it, is `name` in any mix of
/// upper and lower case. `name` has no blanks.
pub open spec fn item_is(hdr: Seq<u8>, a: int, b: int, name: Seq<u8>) -> bool {
    exists|lo: int| #[trigger] name_at(hdr, a, b, lo, name)
}

/// Whether `hdr[a..b]` is blanks, then at `lo` the name `name` in any mix of
/// upper and lower case, then blanks.
pub open spec fn name_at(hdr: Seq<u8>, a: int, b: int, lo: int, name: Seq<u8>) -> bool {
    &&& a <= lo
    &&& lo + name.len() <= b
    &&& forall|k: int| a <= k < lo ==> is_blank(hdr[k])
    &&& forall|k: int| lo + name.len() <= k < b ==> is_blank(hdr[k])
    &&& forall|j: int| 0 <= j < name.len() ==> lower(#[trigger] hdr[lo + j]) == lower(name[j])
}

/// Whether the client offers the subprotocol `name` in the header `hdr`.
pub open spec fn offers(hdr: Seq<u8>, name: Seq<u8>) -> bool {
    exists|a: int, b: int| is_item(hdr, a, b) && item_is(hdr, a, b, name)
}

/// The bytes of a subprotocol's name.
pub open spec fn name_bytes(version: Version) -> Seq<u8> {
    match version {
        Version::Hrana1 => seq![104u8, 114u8, 97u8, 110u8, 97u8, 49u8],
        Version::Hrana2 => seq![104u8, 114u8, 97u8, 110u8, 97u8, 50u8],
        Version::Hrana3 => seq![104u8, 114u8, 97u8, 110u8, 97u8, 51u8],
    }
}

/// What is said to a client that offers no subprotocol of ours.
pub open spec fn unsupported_text() -> Seq<char> {
    "Only 'hrana1', 'hrana2' and 'hrana3' subprotocols are supported"@
}

/// The version that both sides speak, and whether the answer names it.
///
/// Without the header the client wants version 1, and the answer names no
/// subprotocol. With it, the highest version that the client offers is
/// taken and named; a header that is no text offers nothing.
pub open spec fn negotiated(protocol_hdr: Option<Seq<u8>>) -> Result<(Version, bool), Seq<char>> {
    match protocol_hdr {
        None => Ok((Version::Hrana1, false)),
        Some(hdr) => if is_text(hdr) && offers(hdr, name_bytes(Version::Hrana3)) {
            Ok((Version::Hrana3, true))
        } else if is_text(hdr) && offers(hdr, name_bytes(Version::Hrana2)) {
            Ok((Version::Hrana2, true))
        } else if is_text(hdr) && offers(hdr, name_bytes(Version::Hrana1)) {
            Ok((Version::Hrana1, true))
        } else {
            Err(unsupported_text())
        },
    }
}

/// The lower-case form of an ASCII letter; every other byte is itself.
fn to_lower(b: u8) -> (r: u8)
    ensures
        r == lower(b),
{
    if 65 <= b && b <= 90 {
        b + 32
    } else {
        b
    }
}

/// Whether `hdr[a..b]`, without the blanks around it, is the name of
/// `version` in any mix of upper and lower case.
fn item_matches(hdr: &[u8], a: usize, b: usize, version: Version) -> (r: bool)
    requires
        a <= b <= hdr@.len(),
    ensures
        r == item_is(hdr@, a as int, b as int, name_bytes(version)),
{
    let name: [u8; 6] = match version {
        Version::Hrana1 => [104, 114, 97, 110, 97, 49],
        Version::Hrana2 => [104, 114, 97, 110, 97, 50],
        Version::Hrana3 => [104, 114, 97, 110, 97, 51],
    };
    assert(name@ =~= name_bytes(version));
    let ghost want = name_bytes(version);
    let mut lo: usize = a;
    while lo < b && (hdr[lo] == 32 || hdr[lo] == 9)
        invariant
            a <= lo <= b <= hdr@.len(),
            forall|k: int| a <= k < lo ==> is_blank(hdr@[k]),
        decreases b - lo,
    {
        lo += 1;
    }
    if b - lo < 6 {
        proof {
            if lo < b {
                lemma_name_start(hdr@, a as int, b as int, lo as int, version);
            } else {
                lemma_blank_item(hdr@, a as int, b as int, version);
            }
        }
        return false;
    }
    let mut j: usize = 0;
    while j < 6
        invariant
            j <= 6,
            a <= lo,
            lo + 6 <= b <= hdr@.len(),
            name@ == want,
            want == name_bytes(version),
            forall|k: int| a <= k < lo ==> is_blank(hdr@[k]),
            !is_blank(hdr@[lo as int]),
            forall|i: int| 0 <= i < j ==> lower(#[trigger] hdr@[lo + i]) == lower(want[i]),
        decreases 6 - j,
    {
        if to_lower(hdr[lo + j]) != to_lower(name[j]) {
            assert(!item_is(hdr@, a as int, b as int, want)) by {
                lemma_name_start(hdr@, a as int, b as int, lo as int, version);
                assert(lower(hdr@[lo + j]) != lower(want[j as int]));
            }
            return false;
        }
        j += 1;
    }
    let mut hi: usize = lo + 6;
    while hi < b
        invariant
            lo + 6 <= hi <= b <= hdr@.len(),
            a <= lo,
            want == name_bytes(version),
            forall|k: int| a <= k < lo ==> is_blank(hdr@[k]),
            lo < b && !is_blank(hdr@[lo as int]),
            forall|i: int| 0 <= i < 6 ==> lower(#[trigger] hdr@[lo + i]) == lower(want[i]),
            forall|k: int| lo + 6 <= k < hi ==> is_blank(hdr@[k]),
        decreases b - hi,
    {
        if !(hdr[hi] == 32 || hdr[hi] == 9) {
            assert(!item_is(hdr@, a as int, b as int, want)) by {
                lemma_name_start(hdr@, a as int, b as int, lo as int, version);
            }
            return false;
        }
        hi += 1;
    }
    assert(name_at(hdr@, a as int, b as int, lo as int, want));
    true
}

/// An item of blanks is no name.
proof fn lemma_blank_item(hdr: Seq<u8>, a: int, b: int, version: Version)
    requires
        0 <= a <= b <= hdr.len(),
        forall|k: int| a <= k < b ==> is_blank(hdr[k]),
    ensures
        !item_is(hdr, a, b, name_bytes(version)),
{
    let want = name_bytes(version);
    if item_is(hdr, a, b, want) {
        let l = choose|l: int| #[trigger] name_at(hdr, a, b, l, want);
        assert(lower(hdr[l + 0]) == lower(want[0]));
        assert(is_blank(hdr[l]));
    }
}

/// An item that is a name starts where its blanks end.
proof fn lemma_name_start(hdr: Seq<u8>, a: int, b: int, lo: int, version: Version)
    requires
        a <= lo < b <= hdr.len(),
        forall|k: int| a <= k < lo ==> is_blank(hdr[k]),
        !is_blank(hdr[lo]),
    ensures
        item_is(hdr, a, b, name_bytes(version)) ==> {
            &&& lo + 6 <= b
            &&& forall|k: int| lo + 6 <= k < b ==> is_blank(hdr[k])
            &&& forall|j: int|
                0 <= j < 6 ==> lower(#[trigger] hdr[lo + j]) == lower(name_bytes(version)[j])
        },
{
    let want = name_bytes(version);
    if item_is(hdr, a, b, want) {
        let l = choose|l: int| #[trigger] name_at(hdr, a, b, l, want);
        if l > lo {
            assert(is_blank(hdr[lo]));
        } else if l < lo {
            // the name's first byte would be a blank
            assert(lower(hdr[l + 0]) == lower(want[0]));
            assert(is_blank(hdr[l]));
        }
        assert(l == lo);
    }
}

/// Whether a header value can be read as text.
fn header_is_text(hdr: &[u8]) -> (r: bool)
    ensures
        r == is_text(hdr@),
{
    let n: usize = hdr.len();
    let mut i: usize = 0;
    while i < n
        invariant
            i <= n,
            n == hdr@.len(),
            forall|k: int| 0 <= k < i ==> is_visible_ascii(#[trigger] hdr@[k]),
        decreases n - i,
    {
        let b: u8 = hdr[i];
        if !((32 <= b && b < 127) || b == 9) {
            return false;
        }
        i += 1;
    }
    true
}

/// Whether the client offers the subprotocol of `version` in `hdr`.
fn header_offers(hdr: &[u8], version: Version) -> (r: bool)
    ensures
        r == offers(hdr@, name_bytes(version)),
{
    let n: usize = hdr.len();
    let ghost want = name_bytes(version);
    let mut start: usize = 0;
    let mut found: bool = false;
    loop
        invariant_except_break
            !found,
        invariant
            n == hdr@.len(),
            want == name_bytes(version),
            start <= n,
            start == 0 || hdr@[start - 1] == COMMA,
            forall|a: int, b: int|
                is_item(hdr@, a, b) && b < start ==> !item_is(hdr@, a, b, want),
        ensures
            found == offers(hdr@, want),
        decreases n - start,
    {
        let mut end: usize = start;
        while end < n && hdr[end] != COMMA
            invariant
                start <= end <= n,
                n == hdr@.len(),
                forall|k: int| start <= k < end ==> hdr@[k] != COMMA,
            decreases n - end,
        {
            end += 1;
        }
        assert(is_item(hdr@, start as int, end as int));
        let hit: bool = item_matches(hdr, start, end, version);
        proof {
            // the items that end at or before `end` are the earlier ones
            // and this one
            assert forall|a: int, b: int| is_item(hdr@, a, b) && b <= end && !(a == start && b
                == end) implies b < start by {
                if b >= start {
                    if b < end {
                        assert(hdr@[b] == COMMA);
                    } else if a < start {
                        assert(hdr@[start - 1] == COMMA);
                    } else {
                        assert(hdr@[a - 1] == COMMA);
                    }
                }
            }
        }
        if hit {
            found = true;
            break ;
        }
        if end == n {
            proof {
                assert forall|a: int, b: int| is_item(hdr@, a, b) implies !item_is(
                    hdr@,
                    a,
                    b,
                    want,
                ) by {
                    if !(a == start && b == end) {
                        assert(b < start);
                    }
                }
            }
            break ;
        }
        start = end + 1;
    }
    found
}

/// Picks the version of the protocol from the subprotocols that the client
/// offers in the `Sec-WebSocket-Protocol` header, given as the header's
/// bytes. With the version comes the subprotocol to name in the answer, if
/// the answer is to name one.
pub fn negotiate_version(protocol_hdr: Option<&[u8]>) -> (r: Result<
    (Version, Option<&'static str>),
    String,
>)
    ensures
        match negotiated(header_bytes(protocol_hdr)) {
            Ok((version, named)) => r matches Ok((v, name)) && v == version && (name is Some
                <==> named) && (name matches Some(text) ==> text@ == version.name()),
            Err(reason) => r matches Err(text) && text@ == reason,
        },
{
    let hdr = match protocol_hdr {
        Some(hdr) => hdr,
        None => {
            return Ok((Version::Hrana1, None));
        },
    };
    let is_text: bool = header_is_text(hdr);
    let version = if is_text && header_offers(hdr, Version::Hrana3) {
        Version::Hrana3
    } else if is_text && header_offers(hdr, Version::Hrana2) {
        Version::Hrana2
    } else if is_text && header_offers(hdr, Version::Hrana1) {
        Version::Hrana1
    } else {
        return Err(
            String::from_str("Only 'hrana1', 'hrana2' and 'hrana3' subprotocols are supported"),
        );
    };
    Ok((version, Some(version.as_str())))
}

/// The limits of a WebSocket.
#[derive(Clone, Copy, Debug, PartialEq, Eq, Structural)]
pub struct WsConfig {
    /// How many messages may wait to be sent.
    pub max_send_queue: Option<usize>,
}

/// The limits of the server's WebSockets: up to 2^20 messages may wait to be
/// sent.
pub fn get_ws_config() -> (config: WsConfig)
    ensures
        config.max_send_queue == Some(0x10_0000usize),
{
    WsConfig { max_send_queue: Some(0x10_0000) }
}

/// What the server does with a handshake on a TCP connection.
#[derive(Debug, PartialEq, Eq)]
pub enum TcpHandshake {
    /// Accept: the client named this database and speaks this version. The
    /// answer names the subprotocol `protocol`, if any, and the server as
    /// `server`.
    Accept {
        namespace: bytes::Bytes,
        version: Version,
        protocol: Option<&'static str>,
        server: &'static str,
    },
    /// Refuse, with this text as the answer's body.
    Reject { body: String, server: &'static str },
}

/// Decides a handshake on a TCP connection from the `Host` header and the
/// `Sec-WebSocket-Protocol` header of the request, each given as its bytes.
/// The host must name a database; then the version is negotiated.
pub fn handshake_tcp(host: Option<&[u8]>, protocol_hdr: Option<&[u8]>) -> (r: TcpHandshake)
    ensures
        match host_fault(header_bytes(host)) {
            Some(reason) => r matches TcpHandshake::Reject { body, server } && body@
                == "Invalid host header: `"@ + reason + "`"@ && server@ == "sqld-hrana-tcp"@,
            None => match negotiated(header_bytes(protocol_hdr)) {
                Ok((want, named)) => r matches TcpHandshake::Accept {
                    namespace,
                    version,
                    protocol,
                    server,
                } && is_namespace_of(host->0@, bytes_content(namespace)) && version == want && (
                protocol is Some <==> named) && (protocol matches Some(p) ==> p@ == want.name())
                    && server@ == "sqld-hrana-tcp"@,
                Err(reason) => r matches TcpHandshake::Reject { body, server } && body@ == reason
                    && server@ == "sqld-hrana-tcp"@,
            },
        },
{
    let namespace = match extract_namespace(host) {
        Ok(ns) => ns,
        Err(e) => {
            return TcpHandshake::Reject { body: e.message(), server: "sqld-hrana-tcp" };
        },
    };
    match negotiate_version(protocol_hdr) {
        Ok((version, protocol)) => TcpHandshake::Accept {
            namespace,
            version,
            protocol,
            server: "sqld-hrana-tcp",
        },
        Err(body) => TcpHandshake::Reject { body, server: "sqld-hrana-tcp" },
    }
}

/// What the server does with a handshake on an HTTP connection that asks to
/// become a WebSocket.
#[derive(Debug, PartialEq, Eq)]
pub enum UpgradeHandshake {
    /// Switch protocols: the client named this database and speaks this
    /// version.
    Accept {
        namespace: bytes::Bytes,
        version: Version,
        protocol: Option<&'static str>,
        server: &'static str,
    },
    /// Answer with a bad request and this body; the handshake has failed
    /// for the reason `error`.
    Reject { body: String, error: String, server: &'static str },
}

/// Decides a handshake on an HTTP connection for a client that named the
/// database `namespace`. `upgrade` is what the attempt to switch protocols
/// gave; where it failed, its text is the answer. Then the version is
/// negotiated from the `Sec-WebSocket-Protocol` header, given as its bytes.
pub fn handshake_upgrade(
    namespace: bytes::Bytes,
    protocol_hdr: Option<&[u8]>,
    upgrade: Result<(), String>,
) -> (r: UpgradeHandshake)
    ensures
        match upgrade {
            Err(failure) => r matches UpgradeHandshake::Reject { body, error, server } && body
                == failure && error@ == "Protocol error in HTTP upgrade"@ && server@
                == "sqld-hrana-upgrade"@,
            Ok(_) => match negotiated(header_bytes(protocol_hdr)) {
                Ok((want, named)) => r matches UpgradeHandshake::Accept {
                    namespace: ns,
                    version,
                    protocol,
                    server,
                } && ns == namespace && version == want && (protocol is Some <==> named) && (
                protocol matches Some(p) ==> p@ == want.name()) && server@
                    == "sqld-hrana-upgrade"@,
                Err(reason) => r matches UpgradeHandshake::Reject { body, error, server } && body@
                    == reason && error@ == "Could not negotiate subprotocol: "@ + reason
                    && server@ == "sqld-hrana-upgrade"@,
            },
        },
{
    match upgrade {
        Ok(_) => match negotiate_version(protocol_hdr) {
            Ok((version, protocol)) => UpgradeHandshake::Accept {
                namespace,
                version,
                protocol,
                server: "sqld-hrana-upgrade",
            },
            Err(msg) => {
                let error = String::from_str("Could not negotiate subprotocol: ").concat(
                    msg.as_str(),
                );
                UpgradeHandshake::Reject { body: msg, error, server: "sqld-hrana-upgrade" }
            },
        },
        Err(failure) => UpgradeHandshake::Reject {
            body: failure,
            error: String::from_str("Protocol error in HTTP upgrade"),
            server: "sqld-hrana-upgrade",
        },
    }
}

} // verus!
