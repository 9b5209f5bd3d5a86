use vstd::prelude::*;

use vstd::utf8::encode_utf8;
use webparse::{Scheme, Url, WebError};

use crate::error::{ProtError, ProtResult, WebFault};
use crate::helper::append_bytes;
use crate::ws::{base64_encode, base64_standard_encode};

verus! {

/// Decimal rendering of `n` without leading zeros.
pub open spec fn decimal(n: nat) -> Seq<u8>
    decreases n,
{
    if n < 10 {
        seq![(48 + n) as u8]
    } else {
        decimal(n / 10).push((48 + n % 10) as u8)
    }
}

/// The decimal digits of `n`.
pub fn decimal_bytes(n: u128) -> (r: Vec<u8>)
    ensures
        r@ == decimal(n as nat),
    decreases n,
{
    if n < 10 {
        let mut v: Vec<u8> = Vec::new();
        v.push(48 + n as u8);
        proof {
            assert(v@ =~= decimal(n as nat));
        }
        v
    } else {
        let mut v = decimal_bytes(n / 10);
        v.push(48 + (n % 10) as u8);
        v
    }
}

pub open spec fn connect_word() -> Seq<u8> {
    seq![67u8, 79u8, 78u8, 78u8, 69u8, 67u8, 84u8, 32u8]
}

pub open spec fn http11_line_end() -> Seq<u8> {
    seq![32u8, 72u8, 84u8, 84u8, 80u8, 47u8, 49u8, 46u8, 49u8, 13u8, 10u8]
}

pub open spec fn host_word() -> Seq<u8> {
    seq![72u8, 111u8, 115u8, 116u8, 58u8, 32u8]
}

pub open spec fn user_agent_word() -> Seq<u8> {
    seq![85u8, 115u8, 101u8, 114u8, 45u8, 65u8, 103u8, 101u8, 110u8, 116u8, 58u8, 32u8]
}

pub open spec fn proxy_auth_word() -> Seq<u8> {
    seq![
        80u8, 114u8, 111u8, 120u8, 121u8, 45u8, 65u8, 117u8, 116u8, 104u8, 111u8, 114u8, 105u8,
        122u8, 97u8, 116u8, 105u8, 111u8, 110u8, 58u8, 32u8,
    ]
}

pub open spec fn crlf_bytes() -> Seq<u8> {
    seq![13u8, 10u8]
}

/// `host:port`.
pub open spec fn host_port(host: Seq<u8>, port: u16) -> Seq<u8> {
    host + seq![58u8] + decimal(port as nat)
}

pub open spec fn optional_line(word: Seq<u8>, value: Option<Seq<u8>>) -> Seq<u8> {
    match value {
        Some(v) => word + v + crlf_bytes(),
        None => Seq::empty(),
    }
}

/// The CONNECT request that opens a tunnel through an HTTP proxy.
pub open spec fn spec_tunnel_request(
    host: Seq<u8>,
    port: u16,
    user_agent: Option<Seq<u8>>,
    auth: Option<Seq<u8>>,
) -> Seq<u8> {
    connect_word() + host_port(host, port) + http11_line_end() + host_word() + host_port(host, port)
        + crlf_bytes() + optional_line(user_agent_word(), user_agent) + optional_line(proxy_auth_word(), auth)
        + crlf_bytes()
}

pub open spec fn opt_view(o: Option<&[u8]>) -> Option<Seq<u8>> {
    match o {
        Some(v) => Some(v@),
        None => None,
    }
}

fn push_literal(out: &mut Vec<u8>, lit: &[u8])
    ensures
        final(out)@ == old(out)@ + lit@,
{
    append_bytes(out, lit);
}

/// Builds the CONNECT request for `host:port`, with the optional
/// `User-Agent` and `Proxy-Authorization` values.
pub fn tunnel_request(host: &[u8], port: u16, user_agent: Option<&[u8]>, auth: Option<&[u8]>) -> (r: Vec<u8>)
    ensures
        r@ == spec_tunnel_request(host@, port, opt_view(user_agent), opt_view(auth)),
{
    let connect: [u8; 8] = [67, 79, 78, 78, 69, 67, 84, 32];
    let http11: [u8; 11] = [32, 72, 84, 84, 80, 47, 49, 46, 49, 13, 10];
    let host_w: [u8; 6] = [72, 111, 115, 116, 58, 32];
    let ua_w: [u8; 12] = [85, 115, 101, 114, 45, 65, 103, 101, 110, 116, 58, 32];
    let auth_w: [u8; 21] = [80, 114, 111, 120, 121, 45, 65, 117, 116, 104, 111, 114, 105, 122, 97, 116, 105, 111, 110, 58, 32];
    let colon: [u8; 1] = [58];
    let crlf: [u8; 2] = [13, 10];
    proof {
        assert(connect@ =~= connect_word());
        assert(http11@ =~= http11_line_end());
        assert(host_w@ =~= host_word());
        assert(ua_w@ =~= user_agent_word());
        assert(auth_w@ =~= proxy_auth_word());
        assert(colon@ =~= seq![58u8]);
        assert(crlf@ =~= crlf_bytes());
    }
    let port_text = decimal_bytes(port as u128);
    let mut buf: Vec<u8> = Vec::new();
    push_literal(&mut buf, &connect);
    push_literal(&mut buf, host);
    push_literal(&mut buf, &colon);
    push_literal(&mut buf, port_text.as_slice());
    push_literal(&mut buf, &http11);
    push_literal(&mut buf, &host_w);
    push_literal(&mut buf, host);
    push_literal(&mut buf, &colon);
    push_literal(&mut buf, port_text.as_slice());
    push_literal(&mut buf, &crlf);
    let ghost head = buf@;
    assert(head =~= connect_word() + host_port(host@, port) + http11_line_end() + host_word()
        + host_port(host@, port) + crlf_bytes());
    match user_agent {
        Some(ua) => {
            push_literal(&mut buf, &ua_w);
            push_literal(&mut buf, ua);
            push_literal(&mut buf, &crlf);
        },
        None => {},
    }
    let ghost mid = buf@;
    assert(mid =~= head + optional_line(user_agent_word(), opt_view(user_agent)));
    match auth {
        Some(a) => {
            push_literal(&mut buf, &auth_w);
            push_literal(&mut buf, a);
            push_literal(&mut buf, &crlf);
        },
        None => {},
    }
    assert(buf@ =~= mid + optional_line(proxy_auth_word(), opt_view(auth)));
    push_literal(&mut buf, &crlf);
    buf
}

/// Where the answer of the proxy to a CONNECT request stands.
#[derive(Debug, Clone, Copy, PartialEq, Eq)]
pub enum TunnelStep {
    /// The tunnel is open.
    Connected,
    /// The answer is incomplete: read more.
    ReadMore,
    /// The tunnel could not be opened.
    Failed(&'static str),
}

pub open spec fn status_200_http11() -> Seq<u8> {
    seq![72u8, 84u8, 84u8, 80u8, 47u8, 49u8, 46u8, 49u8, 32u8, 50u8, 48u8, 48u8]
}

pub open spec fn status_200_http10() -> Seq<u8> {
    seq![72u8, 84u8, 84u8, 80u8, 47u8, 49u8, 46u8, 48u8, 32u8, 50u8, 48u8, 48u8]
}

pub open spec fn status_407_http11() -> Seq<u8> {
    seq![72u8, 84u8, 84u8, 80u8, 47u8, 49u8, 46u8, 49u8, 32u8, 52u8, 48u8, 55u8]
}

pub open spec fn head_end() -> Seq<u8> {
    seq![13u8, 10u8, 13u8, 10u8]
}

pub open spec fn starts_with(s: Seq<u8>, p: Seq<u8>) -> bool {
    p.len() <= s.len() && s.take(p.len() as int) == p
}

pub open spec fn ends_with(s: Seq<u8>, p: Seq<u8>) -> bool {
    p.len() <= s.len() && s.skip(s.len() - p.len()) == p
}

/// Reading the answer of the proxy: a 200 status whose head is complete
/// opens the tunnel; an incomplete 200 head is read further unless the
/// buffer is full; 407 means the proxy wants credentials; anything else
/// fails.
pub open spec fn spec_tunnel_step(received: Seq<u8>, capacity: nat) -> TunnelStep {
    if starts_with(received, status_200_http11()) || starts_with(received, status_200_http10()) {
        if ends_with(received, head_end()) {
            TunnelStep::Connected
        } else if received.len() == capacity {
            TunnelStep::Failed("proxy headers too long for tunnel")
        } else {
            TunnelStep::ReadMore
        }
    } else if starts_with(received, status_407_http11()) {
        TunnelStep::Failed("proxy authentication required")
    } else {
        TunnelStep::Failed("unsuccessful tunnel")
    }
}

fn bytes_start_with(s: &[u8], p: &[u8]) -> (r: bool)
    ensures
        r == starts_with(s@, p@),
{
    if p.len() > s.len() {
        return false;
    }
    let mut i: usize = 0;
    while i < p.len()
        invariant
            p@.len() <= s@.len(),
            i <= p@.len(),
            forall|j: int| 0 <= j < i ==> s@[j] == p@[j],
        decreases p@.len() - i,
    {
        if s[i] != p[i] {
            assert(s@.take(p@.len() as int)[i as int] != p@[i as int]);
            return false;
        }
        i = i + 1;
    }
    assert(s@.take(p@.len() as int) =~= p@);
    true
}

fn bytes_end_with(s: &[u8], p: &[u8]) -> (r: bool)
    ensures
        r == ends_with(s@, p@),
{
    if p.len() > s.len() {
        return false;
    }
    let off = s.len() - p.len();
    assert(s@.len() <= usize::MAX);
    let mut i: usize = 0;
    while i < p.len()
        invariant
            p@.len() <= s@.len(),
            off == s@.len() - p@.len(),
            s@.len() <= usize::MAX,
            i <= p@.len(),
            forall|j: int| 0 <= j < i ==> s@[off + j] == p@[j],
        decreases p@.len() - i,
    {
        if s[off + i] != p[i] {
            assert(s@.skip(off as int)[i as int] != p@[i as int]);
            return false;
        }
        i = i + 1;
    }
    assert(s@.skip(off as int) =~= p@);
    true
}

/// Reads the answer of the proxy received so far (`received`, in a buffer
/// of `capacity` bytes).
pub fn tunnel_step(received: &[u8], capacity: usize) -> (r: TunnelStep)
    ensures
        r == spec_tunnel_step(received@, capacity as nat),
{
    let ok11: [u8; 12] = [72, 84, 84, 80, 47, 49, 46, 49, 32, 50, 48, 48];
    let ok10: [u8; 12] = [72, 84, 84, 80, 47, 49, 46, 48, 32, 50, 48, 48];
    let auth11: [u8; 12] = [72, 84, 84, 80, 47, 49, 46, 49, 32, 52, 48, 55];
    let end: [u8; 4] = [13, 10, 13, 10];
    proof {
        assert(ok11@ =~= status_200_http11());
        assert(ok10@ =~= status_200_http10());
        assert(auth11@ =~= status_407_http11());
        assert(end@ =~= head_end());
    }
    if bytes_start_with(received, &ok11) || bytes_start_with(received, &ok10) {
        if bytes_end_with(received, &end) {
            TunnelStep::Connected
        } else if received.len() == capacity {
            TunnelStep::Failed("proxy headers too long for tunnel")
        } else {
            TunnelStep::ReadMore
        }
    } else if bytes_start_with(received, &auth11) {
        TunnelStep::Failed("proxy authentication required")
    } else {
        TunnelStep::Failed("unsuccessful tunnel")
    }
}

// ---------------------------------------------------------------------------
// SOCKS5
// ---------------------------------------------------------------------------

/// The greeting of a SOCKS5 client: offers user/password authentication
/// when it has credentials, else no authentication.
pub fn socks5_greeting(has_auth: bool) -> (r: Vec<u8>)
    ensures
        r@ == if has_auth { seq![5u8, 1u8, 2u8] } else { seq![5u8, 0u8] },
{
    let mut v: Vec<u8> = Vec::new();
    if has_auth {
        v.push(5);
        v.push(1);
        v.push(2);
    } else {
        v.push(5);
        v.push(0);
    }
    proof {
        if has_auth {
            assert(v@ =~= seq![5u8, 1u8, 2u8]);
        } else {
            assert(v@ =~= seq![5u8, 0u8]);
        }
    }
    v
}

/// A length as the single byte that SOCKS5 gives it (the low 8 bits).
pub open spec fn len_byte(n: nat) -> u8 {
    (n % 256) as u8
}

/// The user/password sub-negotiation message.
pub open spec fn spec_socks5_auth(user: Seq<u8>, pass: Seq<u8>) -> Seq<u8> {
    seq![1u8, len_byte(user.len())] + user + seq![len_byte(pass.len())] + pass
}

fn low_byte(n: usize) -> (r: u8)
    ensures
        r == len_byte(n as nat),
{
    (n % 256) as u8
}

/// Reads the server's choice of method (the first two bytes of its reply):
/// user/password asks for the credentials message, returned; no
/// authentication needs nothing; anything else fails.
pub fn socks5_method_reply(reply: &[u8], auth: Option<(&[u8], &[u8])>) -> (r: ProtResult<Option<Vec<u8>>>)
    requires
        reply@.len() >= 2,
        reply@[0] == 5 && reply@[1] == 2 ==> auth.is_some(),
    ensures
        reply@[0] != 5 ==> r == Err::<Option<Vec<u8>>, ProtError>(ProtError::Extension("socks5 error")),
        reply@[0] == 5 && reply@[1] == 2 ==> (r matches Ok(Some(m)) && (auth matches Some((u, p))
            && m@ == spec_socks5_auth(u@, p@))),
        reply@[0] == 5 && reply@[1] == 0 ==> (r matches Ok(None)),
        reply@[0] == 5 && reply@[1] != 0 && reply@[1] != 2 ==> r == Err::<Option<Vec<u8>>, ProtError>(ProtError::Extension("no method for auth")),
{
    if reply[0] != 5 {
        return Err(ProtError::Extension("socks5 error"));
    }
    if reply[1] == 2 {
        match auth {
            Some((user, pass)) => {
                let mut binary: Vec<u8> = Vec::new();
                binary.push(1);
                binary.push(low_byte(user.len()));
                append_bytes(&mut binary, user);
                binary.push(low_byte(pass.len()));
                append_bytes(&mut binary, pass);
                proof {
                    assert(binary@ =~= spec_socks5_auth(user@, pass@));
                }
                Ok(Some(binary))
            },
            None => Err(ProtError::Extension("socks5 error")),
        }
    } else if reply[1] == 0 {
        Ok(None)
    } else {
        Err(ProtError::Extension("no method for auth"))
    }
}

/// Reads the answer to the credentials: version 1, status 0 is success.
pub fn socks5_auth_reply(reply: &[u8]) -> (r: ProtResult<()>)
    requires
        reply@.len() >= 2,
    ensures
        r is Ok <==> (reply@[0] == 1 && reply@[1] == 0),
        r is Err ==> r == Err::<(), ProtError>(ProtError::Extension("user password error")),
{
    if reply[0] != 1 || reply[1] != 0 {
        return Err(ProtError::Extension("user password error"));
    }
    Ok(())
}

/// The CONNECT request of SOCKS5 to a domain name and port.
pub open spec fn spec_socks5_connect(domain: Seq<u8>, port: u16) -> Seq<u8> {
    seq![5u8, 1u8, 0u8, 3u8, len_byte(domain.len())] + domain + seq![(port / 256) as u8, (port % 256) as u8]
}

/// Builds the CONNECT request of SOCKS5 to `domain:port`.
pub fn socks5_connect_request(domain: &[u8], port: u16) -> (r: Vec<u8>)
    ensures
        r@ == spec_socks5_connect(domain@, port),
{
    let mut binary: Vec<u8> = Vec::new();
    binary.push(5);
    binary.push(1);
    binary.push(0);
    binary.push(3);
    binary.push(low_byte(domain.len()));
    append_bytes(&mut binary, domain);
    binary.push((port / 256) as u8);
    binary.push((port % 256) as u8);
    proof {
        assert(binary@ =~= spec_socks5_connect(domain@, port));
    }
    binary
}

/// Reads the answer to the CONNECT request: version 5, status 0 is success.
pub fn socks5_connect_reply(reply: &[u8]) -> (r: ProtResult<()>)
    requires
        reply@.len() >= 2,
    ensures
        r is Ok <==> (reply@[0] == 5 && reply@[1] == 0),
        reply@[0] != 5 ==> r == Err::<(), ProtError>(ProtError::Extension("socks5 error")),
        reply@[0] == 5 && reply@[1] != 0 ==> r == Err::<(), ProtError>(ProtError::Extension("network error")),
{
    if reply[0] != 5 {
        return Err(ProtError::Extension("socks5 error"));
    }
    if reply[1] != 0 {
        return Err(ProtError::Extension("network error"));
    }
    Ok(())
}

// ---------------------------------------------------------------------------
// Proxy schemes
// ---------------------------------------------------------------------------

/// The scheme of a proxy URL.
#[derive(Debug, Clone, Copy, PartialEq, Eq)]
pub enum ProxyKind {
    Http,
    Https,
    Socks5,
    Other,
}

/// A proxy that a client goes through: its address (`host:port`) and
/// credentials (a ready `Proxy-Authorization` value for HTTP proxies, user
/// and password for SOCKS5).
#[derive(Debug, Clone, PartialEq, Eq)]
pub enum ProxyScheme {
    Http { addr: Vec<u8>, auth: Option<Vec<u8>> },
    Https { addr: Vec<u8>, auth: Option<Vec<u8>> },
    Socks5 { addr: Vec<u8>, auth: Option<(Vec<u8>, Vec<u8>)> },
}

pub open spec fn basic_prefix() -> Seq<u8> {
    seq![66u8, 97u8, 115u8, 105u8, 99u8, 32u8]
}

/// `Basic ` and the base64 of `user:password`.
pub open spec fn spec_basic_auth(user: Seq<u8>, pass: Seq<u8>) -> Seq<u8> {
    basic_prefix() + base64_standard_encode(user + seq![58u8] + pass)
}

/// The `Proxy-Authorization` value for credentials, if any.
pub fn basic_auth(auth: Option<(&[u8], &[u8])>) -> (r: Option<Vec<u8>>)
    ensures
        match auth {
            Some((u, p)) => r matches Some(v) && v@ == spec_basic_auth(u@, p@),
            None => r.is_none(),
        },
{
    match auth {
        Some((user, pass)) => {
            let mut text: Vec<u8> = Vec::new();
            append_bytes(&mut text, user);
            text.push(58);
            append_bytes(&mut text, pass);
            let encoded = base64_encode(text.as_slice());
            let prefix: [u8; 6] = [66, 97, 115, 105, 99, 32];
            proof {
                assert(prefix@ =~= basic_prefix());
                assert(text@ =~= user@ + seq![58u8] + pass@);
            }
            let mut buf: Vec<u8> = Vec::new();
            append_bytes(&mut buf, &prefix);
            append_bytes(&mut buf, encoded.as_slice());
            Some(buf)
        },
        None => None,
    }
}

/// The proxy that [`ProxyScheme::from_parts`] makes of a scheme, an
/// address and credentials (both user and password, or none): HTTP and
/// HTTPS proxies carry the basic `Proxy-Authorization` value, SOCKS5
/// proxies the credentials themselves; other schemes are refused.
pub open spec fn from_parts_result(
    kind: ProxyKind,
    addr: Seq<u8>,
    username: Option<Seq<u8>>,
    password: Option<Seq<u8>>,
    r: ProtResult<ProxyScheme>,
) -> bool {
    let creds = match (username, password) {
        (Some(u), Some(p)) => Some((u, p)),
        _ => None,
    };
    let header = match creds {
        Some((u, p)) => Some(spec_basic_auth(u, p)),
        None => None,
    };
    match kind {
        ProxyKind::Http => r matches Ok(ProxyScheme::Http { addr: a, auth }) && a@ == addr
            && match auth {
            Some(h) => header == Some(h@),
            None => header.is_none(),
        },
        ProxyKind::Https => r matches Ok(ProxyScheme::Https { addr: a, auth }) && a@ == addr
            && match auth {
            Some(h) => header == Some(h@),
            None => header.is_none(),
        },
        ProxyKind::Socks5 => r matches Ok(ProxyScheme::Socks5 { addr: a, auth }) && a@ == addr
            && match auth {
            Some((u, p)) => creds == Some((u@, p@)),
            None => creds.is_none(),
        },
        ProxyKind::Other => r == Err::<ProxyScheme, ProtError>(ProtError::Extension("unknow scheme")),
    }
}

impl ProxyScheme {
    /// The proxy for a URL of the given scheme, address and credentials:
    /// HTTP and HTTPS proxies carry a basic `Proxy-Authorization` value,
    /// SOCKS5 proxies the credentials themselves; other schemes are refused.
    pub fn from_parts(kind: ProxyKind, addr: Vec<u8>, username: Option<Vec<u8>>, password: Option<Vec<u8>>) -> (r: ProtResult<ProxyScheme>)
        ensures
            from_parts_result(kind, addr@, opt_seq(username), opt_seq(password), r),
    {
        let creds: Option<(Vec<u8>, Vec<u8>)> = match (username, password) {
            (Some(u), Some(p)) => Some((u, p)),
            _ => None,
        };
        match kind {
            ProxyKind::Http => {
                let auth = match &creds {
                    Some((u, p)) => basic_auth(Some((u.as_slice(), p.as_slice()))),
                    None => None,
                };
                Ok(ProxyScheme::Http { addr, auth })
            },
            ProxyKind::Https => {
                let auth = match &creds {
                    Some((u, p)) => basic_auth(Some((u.as_slice(), p.as_slice()))),
                    None => None,
                };
                Ok(ProxyScheme::Https { addr, auth })
            },
            ProxyKind::Socks5 => Ok(ProxyScheme::Socks5 { addr, auth: creds }),
            ProxyKind::Other => Err(ProtError::Extension("unknow scheme")),
        }
    }

    /// The proxy that a parsed URL names, once it is known whether its
    /// address reads as an IP socket address (`ip:port`): an address that
    /// does not is refused; otherwise as [`ProxyScheme::from_parts`].
    pub fn from_url(url: ProxyUrl, addr_is_socket: bool) -> (r: ProtResult<ProxyScheme>)
        ensures
            !addr_is_socket ==> r == Err::<ProxyScheme, ProtError>(ProtError::Extension("unknow parse")),
            addr_is_socket ==> from_parts_result(url.kind, url.addr@, opt_seq(url.username), opt_seq(url.password), r),
    {
        if !addr_is_socket {
            return Err(ProtError::Extension("unknow parse"));
        }
        Self::from_parts(url.kind, url.addr, url.username, url.password)
    }

    /// The same proxy used for plain HTTP targets (SOCKS5 cannot be).
    pub fn trans_http(self) -> (r: ProtResult<ProxyScheme>)
        ensures
            match self {
                ProxyScheme::Http { addr, auth } => r == Ok::<ProxyScheme, ProtError>(ProxyScheme::Http { addr, auth }),
                ProxyScheme::Https { addr, auth } => r == Ok::<ProxyScheme, ProtError>(ProxyScheme::Http { addr, auth }),
                ProxyScheme::Socks5 { .. } => r == Err::<ProxyScheme, ProtError>(ProtError::Extension("unknow type")),
            },
    {
        match self {
            ProxyScheme::Http { addr, auth } => Ok(ProxyScheme::Http { addr, auth }),
            ProxyScheme::Https { addr, auth } => Ok(ProxyScheme::Http { addr, auth }),
            _ => Err(ProtError::Extension("unknow type")),
        }
    }

    /// The same proxy used for HTTPS targets (SOCKS5 cannot be).
    pub fn trans_https(self) -> (r: ProtResult<ProxyScheme>)
        ensures
            match self {
                ProxyScheme::Http { addr, auth } => r == Ok::<ProxyScheme, ProtError>(ProxyScheme::Https { addr, auth }),
                ProxyScheme::Https { addr, auth } => r == Ok::<ProxyScheme, ProtError>(ProxyScheme::Https { addr, auth }),
                ProxyScheme::Socks5 { .. } => r == Err::<ProxyScheme, ProtError>(ProtError::Extension("unknow type")),
            },
    {
        match self {
            ProxyScheme::Http { addr, auth } => Ok(ProxyScheme::Https { addr, auth }),
            ProxyScheme::Https { addr, auth } => Ok(ProxyScheme::Https { addr, auth }),
            _ => Err(ProtError::Extension("unknow type")),
        }
    }

    /// The `Proxy-Authorization` value a request must carry through this
    /// proxy: only a plain HTTP proxy with credentials adds one.
    pub fn fix_request(&self) -> (r: Option<Vec<u8>>)
        ensures
            match self {
                ProxyScheme::Http { auth: Some(a), .. } => r matches Some(v) && v@ == a@,
                _ => r.is_none(),
            },
    {
        match self {
            ProxyScheme::Http { addr: _, auth } => match auth {
                Some(a) => {
                    let mut v: Vec<u8> = Vec::new();
                    append_bytes(&mut v, a.as_slice());
                    Some(v)
                },
                None => None,
            },
            _ => None,
        }
    }

    /// How this proxy reaches a target: `None` when it does not serve the
    /// target's scheme (an HTTPS proxy for a plain HTTP target); else whether
    /// a CONNECT tunnel must be opened first (HTTPS targets through HTTP(S)
    /// proxies) or a SOCKS5 handshake is needed.
    pub fn route(&self, target_is_https: bool) -> (r: Option<ProxyRoute>)
        ensures
            match self {
                ProxyScheme::Http { .. } => r == Some(if target_is_https { ProxyRoute::Tunnel } else { ProxyRoute::Direct }),
                ProxyScheme::Https { .. } => r == if target_is_https { Some(ProxyRoute::Tunnel) } else { None },
                ProxyScheme::Socks5 { .. } => r == Some(ProxyRoute::Socks5),
            },
    {
        match self {
            ProxyScheme::Http { .. } => Some(if target_is_https { ProxyRoute::Tunnel } else { ProxyRoute::Direct }),
            ProxyScheme::Https { .. } => if target_is_https {
                Some(ProxyRoute::Tunnel)
            } else {
                None
            },
            ProxyScheme::Socks5 { .. } => Some(ProxyRoute::Socks5),
        }
    }
}

/// How a connection through a proxy starts.
#[derive(Debug, Clone, Copy, PartialEq, Eq)]
pub enum ProxyRoute {
    /// Talk to the proxy as to the target.
    Direct,
    /// Open a CONNECT tunnel first.
    Tunnel,
    /// Run the SOCKS5 handshake first.
    Socks5,
}


impl ProxyRoute {
    /// The target port to ask for when the target's URL names none: 443
    /// through a CONNECT tunnel, 80 otherwise.
    pub fn default_port(&self) -> (r: u16)
        ensures
            r == (if *self == ProxyRoute::Tunnel { 443u16 } else { 80u16 }),
    {
        match self {
            ProxyRoute::Tunnel => 443,
            _ => 80,
        }
    }
}

// ---------------------------------------------------------------------------
// Proxy URLs
// ---------------------------------------------------------------------------

#[verifier::external_type_specification]
#[verifier::external_body]
pub struct ExWebError(WebError);

/// The scheme of a parsed URL, as far as proxies care.
#[derive(Debug)]
pub enum UrlScheme {
    Http,
    Https,
    Extension(String),
    Other,
}

/// The parts of a parsed URL that a proxy is made of.
#[derive(Debug)]
pub struct UrlFields {
    pub scheme: UrlScheme,
    pub username: Option<String>,
    pub password: Option<String>,
    pub domain: Option<String>,
    pub port: Option<u16>,
}

/// A parsed URL as plain values: the scheme's tag (0 HTTP, 1 HTTPS, 2 a
/// named extension, 3 any other) and name, user, password, domain, port.
pub type UrlFieldsView = (u8, Seq<char>, Option<Seq<char>>, Option<Seq<char>>, Option<Seq<char>>, Option<u16>);

pub open spec fn opt_chars(s: Option<String>) -> Option<Seq<char>> {
    match s {
        Some(v) => Some(v@),
        None => None,
    }
}

impl UrlFields {
    pub open spec fn fields_view(&self) -> UrlFieldsView {
        let (tag, name) = match self.scheme {
            UrlScheme::Http => (0u8, Seq::<char>::empty()),
            UrlScheme::Https => (1u8, Seq::<char>::empty()),
            UrlScheme::Extension(n) => (2u8, n@),
            UrlScheme::Other => (3u8, Seq::<char>::empty()),
        };
        (tag, name, opt_chars(self.username), opt_chars(self.password), opt_chars(self.domain), self.port)
    }
}

/// What webparse's URL parser makes of a text (`None`: it refuses it).
pub uninterp spec fn url_parse_result(text: Seq<char>) -> Option<UrlFieldsView>;

/// `Url::try_from(&str)` of webparse, its result taken apart into plain
/// fields. Claimed: the fields are [`url_parse_result`] of the text, and an
/// error comes exactly when that is `None`.
#[verifier::external_body]
pub(crate) fn parse_url(value: &str) -> (r: Result<UrlFields, WebError>)
    ensures
        match r {
            Ok(f) => url_parse_result(value@) == Some(f.fields_view()),
            Err(_) => url_parse_result(value@) is None,
        },
{
    match Url::try_from(value) {
        Ok(u) => {
            let scheme = match u.scheme {
                Scheme::Http => UrlScheme::Http,
                Scheme::Https => UrlScheme::Https,
                Scheme::Extension(n) => UrlScheme::Extension(n),
                _ => UrlScheme::Other,
            };
            Ok(UrlFields { scheme, username: u.username, password: u.password, domain: u.domain, port: u.port })
        },
        Err(e) => Err(e),
    }
}

/// `socks5`
pub open spec fn socks5_name() -> Seq<char> {
    seq!['s', 'o', 'c', 'k', 's', '5']
}

/// The proxy kind a URL scheme names.
pub open spec fn spec_proxy_kind(tag: u8, name: Seq<char>) -> ProxyKind {
    if tag == 0 {
        ProxyKind::Http
    } else if tag == 1 {
        ProxyKind::Https
    } else if tag == 2 && name == socks5_name() {
        ProxyKind::Socks5
    } else {
        ProxyKind::Other
    }
}

/// A proxy URL taken apart: the kind its scheme names, the address to
/// connect to (`domain:port`) and the credentials it carries.
#[derive(Debug)]
pub struct ProxyUrl {
    pub kind: ProxyKind,
    pub addr: Vec<u8>,
    pub username: Option<Vec<u8>>,
    pub password: Option<Vec<u8>>,
}

pub open spec fn opt_utf8(s: Option<Seq<char>>) -> Option<Seq<u8>> {
    match s {
        Some(v) => Some(encode_utf8(v)),
        None => None,
    }
}

fn chars_equal(a: &str, b: &str) -> (r: bool)
    ensures
        r == (a@ == b@),
{
    let x = a.as_bytes();
    let y = b.as_bytes();
    let same = bytes_start_with(x, y) && x.len() == y.len();
    proof {
        if same {
            assert(x@ =~= y@);
            vstd::utf8::encode_utf8_decode_utf8(a@);
            vstd::utf8::encode_utf8_decode_utf8(b@);
        } else if a@ == b@ {
            assert(x@ == y@);
            assert(x@.take(y@.len() as int) =~= y@);
        }
    }
    same
}

pub(crate) fn utf8_bytes(s: &String) -> (r: Vec<u8>)
    ensures
        r@ == encode_utf8(s@),
{
    let mut v: Vec<u8> = Vec::new();
    append_bytes(&mut v, s.as_str().as_bytes());
    v
}

impl ProxyScheme {
    /// Takes a proxy URL apart: a URL the parser refuses is an error, one
    /// without both a domain and a port has no address to connect to.
    pub fn parse_url(value: &str) -> (r: ProtResult<ProxyUrl>)
        ensures
            match url_parse_result(value@) {
                None => r == Err::<ProxyUrl, ProtError>(ProtError::Web(WebFault::Other)),
                Some((tag, name, user, pass, domain, port)) => if domain is None || port is None {
                    r == Err::<ProxyUrl, ProtError>(ProtError::Extension("unknow addr"))
                } else {
                    r matches Ok(u) && u.kind == spec_proxy_kind(tag, name)
                        && u.addr@ == encode_utf8(domain->0) + seq![58u8] + decimal(port->0 as nat)
                        && opt_seq(u.username) == opt_utf8(user) && opt_seq(u.password) == opt_utf8(pass)
                },
            },
    {
        let fields = match parse_url(value) {
            Ok(f) => f,
            Err(_) => {
                return Err(ProtError::Web(WebFault::Other));
            },
        };
        let (domain, port) = match (&fields.domain, fields.port) {
            (Some(d), Some(p)) => (d, p),
            _ => {
                return Err(ProtError::Extension("unknow addr"));
            },
        };
        let mut addr = utf8_bytes(domain);
        addr.push(58);
        let port_text = decimal_bytes(port as u128);
        append_bytes(&mut addr, port_text.as_slice());
        let kind = match &fields.scheme {
            UrlScheme::Http => ProxyKind::Http,
            UrlScheme::Https => ProxyKind::Https,
            UrlScheme::Extension(n) => {
                proof {
                    reveal_strlit("socks5");
                    assert("socks5"@ =~= socks5_name());
                }
                if chars_equal(n.as_str(), "socks5") {
                    ProxyKind::Socks5
                } else {
                    ProxyKind::Other
                }
            },
            UrlScheme::Other => ProxyKind::Other,
        };
        let username = match &fields.username {
            Some(u) => Some(utf8_bytes(u)),
            None => None,
        };
        let password = match &fields.password {
            Some(p) => Some(utf8_bytes(p)),
            None => None,
        };
        Ok(ProxyUrl { kind, addr, username, password })
    }
}

pub open spec fn opt_seq(v: Option<Vec<u8>>) -> Option<Seq<u8>> {
    match v {
        Some(x) => Some(x@),
        None => None,
    }
}

// ---------------------------------------------------------------------------
// Describing a proxy
// ---------------------------------------------------------------------------

pub open spec fn word_http() -> Seq<u8> {
    seq![72u8, 84u8, 84u8, 80u8, 32u8]
}

pub open spec fn word_https() -> Seq<u8> {
    seq![72u8, 84u8, 84u8, 80u8, 83u8, 32u8]
}

pub open spec fn word_socks5() -> Seq<u8> {
    seq![83u8, 79u8, 67u8, 75u8, 83u8, 53u8, 32u8]
}

pub open spec fn word_auth() -> Seq<u8> {
    seq![44u8, 32u8, 65u8, 117u8, 116u8, 104u8, 58u8, 32u8]
}

pub open spec fn comma_space() -> Seq<u8> {
    seq![44u8, 32u8]
}

/// How a proxy is shown in logs: its kind and address, and the credentials
/// of HTTPS and SOCKS5 proxies when it has some.
pub open spec fn spec_describe(p: ProxyScheme) -> Seq<u8> {
    match p {
        ProxyScheme::Http { addr, .. } => word_http() + addr@,
        ProxyScheme::Https { addr, auth } => match auth {
            None => word_https() + addr@,
            Some(a) => word_https() + addr@ + word_auth() + a@,
        },
        ProxyScheme::Socks5 { addr, auth } => match auth {
            None => word_socks5() + addr@,
            Some((u, w)) => word_socks5() + addr@ + word_auth() + u@ + comma_space() + w@,
        },
    }
}

impl ProxyScheme {
    /// The text that shows this proxy (see [`spec_describe`]).
    pub fn describe(&self) -> (r: Vec<u8>)
        ensures
            r@ == spec_describe(*self),
    {
        let http: [u8; 5] = [72, 84, 84, 80, 32];
        let https: [u8; 6] = [72, 84, 84, 80, 83, 32];
        let socks5: [u8; 7] = [83, 79, 67, 75, 83, 53, 32];
        let auth_word: [u8; 8] = [44, 32, 65, 117, 116, 104, 58, 32];
        let sep: [u8; 2] = [44, 32];
        proof {
            assert(http@ =~= word_http());
            assert(https@ =~= word_https());
            assert(socks5@ =~= word_socks5());
            assert(auth_word@ =~= word_auth());
            assert(sep@ =~= comma_space());
        }
        let mut out: Vec<u8> = Vec::new();
        match self {
            ProxyScheme::Http { addr, .. } => {
                append_bytes(&mut out, &http);
                append_bytes(&mut out, addr.as_slice());
            },
            ProxyScheme::Https { addr, auth } => {
                append_bytes(&mut out, &https);
                append_bytes(&mut out, addr.as_slice());
                if let Some(a) = auth {
                    append_bytes(&mut out, &auth_word);
                    append_bytes(&mut out, a.as_slice());
                }
            },
            ProxyScheme::Socks5 { addr, auth } => {
                append_bytes(&mut out, &socks5);
                append_bytes(&mut out, addr.as_slice());
                if let Some((u, w)) = auth {
                    append_bytes(&mut out, &auth_word);
                    append_bytes(&mut out, u.as_slice());
                    append_bytes(&mut out, &sep);
                    append_bytes(&mut out, w.as_slice());
                }
            },
        }
        out
    }
}


// ---------------------------------------------------------------------------
// Hosts reached without a proxy
// ---------------------------------------------------------------------------

/// The parts joined back with commas.
pub open spec fn join_commas(parts: Seq<Seq<char>>) -> Seq<char>
    decreases parts.len(),
{
    if parts.len() == 0 {
        Seq::empty()
    } else if parts.len() == 1 {
        parts[0]
    } else {
        join_commas(parts.drop_last()) + seq![','] + parts.last()
    }
}

/// `str::split(',')`, each part copied out: the pieces between the commas,
/// in order. Claimed, as std documents: there is at least one piece, none
/// holds a comma, and joined with commas they give the text back.
#[verifier::external_body]
fn split_commas(value: &str) -> (r: Vec<String>)
    ensures
        r@.len() >= 1,
        join_commas(r@.map_values(|p: String| p@)) == value@,
        forall|i: int| 0 <= i < r@.len() ==> !(#[trigger] r@[i]@).contains(','),
{
    value.split(',').map(|p| p.to_string()).collect()
}

/// What `str::trim` leaves of a text.
pub uninterp spec fn trimmed(text: Seq<char>) -> Seq<char>;

/// `str::trim`, copied out: the text without its leading and trailing
/// whitespace. Claimed: the answer is [`trimmed`] of the text, no longer
/// than the text (std returns a slice of it); which characters count as
/// whitespace (Unicode's `White_Space`) is left unsaid.
#[verifier::external_body]
fn trim_str(text: &str) -> (r: String)
    ensures
        r@ == trimmed(text@),
        r@.len() <= text@.len(),
{
    text.trim().to_string()
}

/// `localhost`, `127.0.0.1`, `::1`
pub open spec fn default_no_proxy() -> Seq<Seq<char>> {
    seq![
        seq!['l', 'o', 'c', 'a', 'l', 'h', 'o', 's', 't'],
        seq!['1', '2', '7', '.', '0', '.', '0', '.', '1'],
        seq![':', ':', '1'],
    ]
}

/// The hosts reached directly: the local ones, then each comma-separated
/// entry of the `NO_PROXY` setting, trimmed.
pub open spec fn spec_no_proxy(parts: Option<Seq<Seq<char>>>) -> Seq<Seq<char>> {
    match parts {
        Some(p) => default_no_proxy() + p.map_values(|x: Seq<char>| trimmed(x)),
        None => default_no_proxy(),
    }
}

impl ProxyScheme {
    /// The hosts reached without a proxy, given the `NO_PROXY` setting (if
    /// any): each answer is the text of one host.
    pub fn get_env_no_proxy(setting: Option<&str>) -> (r: Vec<String>)
        ensures
            match setting {
                None => r@.map_values(|h: String| h@) == default_no_proxy(),
                Some(v) => exists|parts: Seq<Seq<char>>| #![trigger join_commas(parts)]
                    join_commas(parts) == v@ && parts.len() >= 1
                    && (forall|i: int| 0 <= i < parts.len() ==> !(#[trigger] parts[i]).contains(','))
                    && r@.map_values(|h: String| h@) == spec_no_proxy(Some(parts)),
            },
    {
        let mut hosts: Vec<String> = Vec::new();
        let h0 = String::from_str("localhost");
        let h1 = String::from_str("127.0.0.1");
        let h2 = String::from_str("::1");
        proof {
            reveal_strlit("localhost");
            reveal_strlit("127.0.0.1");
            reveal_strlit("::1");
            assert(h0@ =~= default_no_proxy()[0]);
            assert(h1@ =~= default_no_proxy()[1]);
            assert(h2@ =~= default_no_proxy()[2]);
        }
        hosts.push(h0);
        hosts.push(h1);
        hosts.push(h2);
        assert(hosts@.map_values(|h: String| h@) =~= default_no_proxy());
        match setting {
            None => hosts,
            Some(v) => {
                let parts = split_commas(v);
                let ghost pv = parts@.map_values(|p: String| p@);
                let mut i: usize = 0;
                while i < parts.len()
                    invariant
                        i <= parts@.len(),
                        pv == parts@.map_values(|p: String| p@),
                        hosts@.map_values(|h: String| h@) == default_no_proxy() + pv.take(i as int).map_values(|x: Seq<char>| trimmed(x)),
                    decreases parts@.len() - i,
                {
                    let t = trim_str(parts[i].as_str());
                    let ghost before = hosts@;
                    hosts.push(t);
                    proof {
                        assert(pv[i as int] == parts@[i as int]@);
                        assert(hosts@ == before.push(t));
                        assert(hosts@.map_values(|h: String| h@) =~= before.map_values(|h: String| h@).push(t@));
                        assert(pv.take(i as int + 1).map_values(|x: Seq<char>| trimmed(x)) =~= pv.take(i as int).map_values(|x: Seq<char>| trimmed(x)).push(trimmed(pv[i as int])));
                        assert(hosts@.map_values(|h: String| h@) =~= default_no_proxy() + pv.take(i as int + 1).map_values(|x: Seq<char>| trimmed(x)));
                    }
                    i = i + 1;
                }
                proof {
                    assert(pv.take(parts@.len() as int) =~= pv);
                    assert forall|k: int| 0 <= k < pv.len() implies !(#[trigger] pv[k]).contains(',') by {
                        assert(pv[k] == parts@[k]@);
                    }
                }
                hosts
            },
        }
    }

    /// Is `host` one of the hosts reached without a proxy?
    pub fn is_no_proxy(hosts: &Vec<String>, host: &str) -> (r: bool)
        ensures
            r == exists|i: int| 0 <= i < hosts@.len() && #[trigger] hosts@[i]@ == host@,
    {
        let mut i: usize = 0;
        while i < hosts.len()
            invariant
                i <= hosts@.len(),
                forall|j: int| 0 <= j < i ==> #[trigger] hosts@[j]@ != host@,
            decreases hosts@.len() - i,
        {
            if chars_equal(hosts[i].as_str(), host) {
                return true;
            }
            i = i + 1;
        }
        false
    }
}

} // verus!
