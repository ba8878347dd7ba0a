//! The messages by which peers find each other on the local network, and the
//! decisions taken on what comes back.
use vstd::prelude::*;

verus! {

/// The port the peers search and announce on.
pub const PEER_PORT: u16 = 21340;

/// How many times a search sends its message and waits for a reply.
pub const SEARCH_ATTEMPTS: u32 = 1000;

/// The multicast group the peers meet in: 239.255.2.134.
pub open spec fn spec_multicast_group() -> Seq<u8> {
    seq![239u8, 255u8, 2u8, 134u8]
}

/// The text `cat-choco`, which a searching peer sends and expects back.
pub open spec fn spec_search_message() -> Seq<u8> {
    seq![99u8, 97u8, 116u8, 45u8, 99u8, 104u8, 111u8, 99u8, 111u8]
}

/// The text `checks`, with which a server greets a new connection.
pub open spec fn spec_server_greeting() -> Seq<u8> {
    seq![99u8, 104u8, 101u8, 99u8, 107u8, 115u8]
}

/// The text `regeister`, with which a client answers a greeting.
pub open spec fn spec_registration() -> Seq<u8> {
    seq![114u8, 101u8, 103u8, 101u8, 105u8, 115u8, 116u8, 101u8, 114u8]
}

/// The octets of the multicast group.
pub fn multicast_group() -> (octets: [u8; 4])
    ensures
        octets@ == spec_multicast_group(),
{
    let octets = [239u8, 255u8, 2u8, 134u8];
    assert(octets@ =~= spec_multicast_group());
    octets
}

fn bytes_of(s: &[u8]) -> (v: Vec<u8>)
    ensures
        v@ == s@,
{
    let mut v: Vec<u8> = Vec::new();
    let mut i: usize = 0;
    while i < s.len()
        invariant
            i <= s@.len(),
            v@ == s@.take(i as int),
        decreases s@.len() - i,
    {
        v.push(s[i]);
        i = i + 1;
        assert(v@ =~= s@.take(i as int));
    }
    assert(s@.take(i as int) =~= s@);
    v
}

/// The search message.
pub fn search_message() -> (m: Vec<u8>)
    ensures
        m@ == spec_search_message(),
{
    let m = [99u8, 97u8, 116u8, 45u8, 99u8, 104u8, 111u8, 99u8, 111u8];
    assert(m@ =~= spec_search_message());
    bytes_of(&m)
}

/// The server's greeting.
pub fn server_greeting() -> (m: Vec<u8>)
    ensures
        m@ == spec_server_greeting(),
{
    let m = [99u8, 104u8, 101u8, 99u8, 107u8, 115u8];
    assert(m@ =~= spec_server_greeting());
    bytes_of(&m)
}

/// The client's registration.
pub fn registration() -> (m: Vec<u8>)
    ensures
        m@ == spec_registration(),
{
    let m = [114u8, 101u8, 103u8, 101u8, 105u8, 115u8, 116u8, 101u8, 114u8];
    assert(m@ =~= spec_registration());
    bytes_of(&m)
}

/// Whether an IPv4 address is a multicast address: its first octet lies
/// between 224 and 239.
pub fn is_multicast(octets: [u8; 4]) -> (m: bool)
    ensures
        m == (224 <= octets@[0] <= 239),
{
    224 <= octets[0] && octets[0] <= 239
}

fn same_bytes(a: &[u8], b: &[u8]) -> (same: bool)
    ensures
        same == (a@ == b@),
{
    if a.len() != b.len() {
        return false;
    }
    let mut i: usize = 0;
    while i < a.len()
        invariant
            i <= a@.len(),
            a@.len() == b@.len(),
            a@.take(i as int) == b@.take(i as int),
        decreases a@.len() - i,
    {
        if a[i] != b[i] {
            return false;
        }
        i = i + 1;
        assert(a@.take(i as int) =~= a@.take(i - 1).push(a@[i - 1]));
        assert(b@.take(i as int) =~= b@.take(i - 1).push(b@[i - 1]));
    }
    assert(a@.take(i as int) =~= a@);
    assert(b@.take(i as int) =~= b@);
    true
}

/// Whether a reply to the search is another peer's: it is exactly the search
/// message, as many bytes as the message has, all received.
pub fn is_peer_reply(received: usize, buf: &[u8]) -> (peer: bool)
    ensures
        peer == (received == spec_search_message().len() && buf@ == spec_search_message()),
{
    let m = search_message();
    received == m.len() && same_bytes(buf, m.as_slice())
}

/// The sender of a reply, if the reply was received and is a peer's; `buf`
/// holds what was received.
pub fn accept_reply<A>(reply: Option<(usize, A)>, buf: &[u8]) -> (peer: Option<A>)
    ensures
        match reply {
            Some((n, a)) => if n == spec_search_message().len() && buf@ == spec_search_message() {
                peer == Some(a)
            } else {
                peer is None
            },
            None => peer is None,
        },
{
    match reply {
        Some((n, addr)) => {
            if is_peer_reply(n, buf) {
                Some(addr)
            } else {
                None
            }
        },
        None => None,
    }
}

/// Why a search came to nothing.
#[derive(Debug, Clone, Copy, PartialEq, Eq, Structural)]
pub enum SearchError {
    /// No peer replied.
    NoPeer,
}

/// The peer to connect to: the first that replied.
pub fn first_peer<A>(peers: &Vec<A>) -> (peer: Result<&A, SearchError>)
    ensures
        peers@.len() > 0 ==> peer == Ok::<&A, SearchError>(&peers@[0]),
        peers@.len() == 0 ==> peer == Err::<&A, SearchError>(SearchError::NoPeer),
{
    if peers.len() > 0 {
        Ok(&peers[0])
    } else {
        Err(SearchError::NoPeer)
    }
}

/// The two bytes of a port, most significant first.
pub open spec fn be_bytes(port: u16) -> Seq<u8> {
    seq![(port / 256) as u8, (port % 256) as u8]
}

/// The port that two bytes give, most significant first.
pub open spec fn be_value(b: Seq<u8>) -> int {
    b[0] * 256 + b[1]
}

/// What a server announces: the port it listens on, most significant byte
/// first.
pub fn port_announcement(port: u16) -> (bytes: [u8; 2])
    ensures
        bytes@ == be_bytes(port),
{
    let bytes = [(port / 256) as u8, (port % 256) as u8];
    assert(bytes@ =~= be_bytes(port));
    bytes
}

/// The port that an announcement gives.
pub fn announced_port(bytes: [u8; 2]) -> (port: u16)
    ensures
        port == be_value(bytes@),
{
    (bytes[0] as u16) * 256 + (bytes[1] as u16)
}

/// Reading an announcement gives back the port that was announced.
pub proof fn lemma_announced_port_of_announcement(port: u16)
    ensures
        be_value(be_bytes(port)) == port,
{
}

/// Announcing a port read from two bytes gives back those bytes.
pub proof fn lemma_announcement_of_announced_port(b: Seq<u8>)
    requires
        b.len() == 2,
    ensures
        be_value(b) <= u16::MAX,
        be_bytes(be_value(b) as u16) == b,
{
    assert(be_bytes(be_value(b) as u16) =~= b);
}

/// A client's answer to what a server sent first: a greeting that begins with
/// `checks` is turned away, anything else is answered with the registration.
/// The greeting is read from a buffer at least as long as `checks`.
pub fn registration_reply(greeting: &[u8]) -> (reply: Option<Vec<u8>>)
    requires
        greeting@.len() >= spec_server_greeting().len(),
    ensures
        greeting@.take(spec_server_greeting().len() as int) == spec_server_greeting() ==> reply
            is None,
        greeting@.take(spec_server_greeting().len() as int) != spec_server_greeting() ==> reply
            is Some && reply->0@ == spec_registration(),
{
    let g = server_greeting();
    let mut head: Vec<u8> = Vec::new();
    let mut i: usize = 0;
    while i < g.len()
        invariant
            i <= g@.len(),
            g@ == spec_server_greeting(),
            greeting@.len() >= g@.len(),
            head@ == greeting@.take(i as int),
        decreases g@.len() - i,
    {
        head.push(greeting[i]);
        i = i + 1;
        assert(head@ =~= greeting@.take(i as int));
    }
    if same_bytes(head.as_slice(), g.as_slice()) {
        None
    } else {
        Some(registration())
    }
}

} // verus!
