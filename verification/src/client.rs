use vstd::prelude::*;
use vstd::utf8::encode_utf8;
use webparse::http2::frame::Settings;

use crate::error::{ProtError, ProtResult};
use crate::helper::append_bytes;
use crate::proxy::{decimal, decimal_bytes, parse_url, url_parse_result, utf8_bytes};

verus! {

/// The address a client connects to: `host:port`.
pub open spec fn connect_address(domain: Seq<char>, port: u16) -> Seq<u8> {
    encode_utf8(domain) + seq![58u8] + decimal(port as nat)
}

/// Where a client connects for a URL: the host name (what TLS checks the
/// server's certificate against) and the address `host:port`, the port
/// being the one the URL names or its scheme's default, as webparse's parser
/// fills it in. A URL the parser refuses, or one without a host or port, is
/// refused.
pub fn tls_target(url: &str) -> (r: ProtResult<(String, Vec<u8>)>)
    ensures
        match url_parse_result(url@) {
            None => r == Err::<(String, Vec<u8>), ProtError>(ProtError::Extension("unknown connection url")),
            Some((_, _, _, _, domain, port)) => if domain is None || port is None {
                r == Err::<(String, Vec<u8>), ProtError>(ProtError::Extension("unknown connection domain"))
            } else {
                r matches Ok((d, a)) && d@ == domain->0 && a@ == connect_address(domain->0, port->0)
            },
        },
{
    let fields = match parse_url(url) {
        Ok(f) => f,
        Err(_) => {
            return Err(ProtError::Extension("unknown connection url"));
        },
    };
    match (fields.domain, fields.port) {
        (Some(d), Some(p)) => {
            let mut addr = utf8_bytes(&d);
            addr.push(58);
            let port_text = decimal_bytes(p as u128);
            append_bytes(&mut addr, port_text.as_slice());
            Ok((d, addr))
        },
        _ => Err(ProtError::Extension("unknown connection domain")),
    }
}

/// The settings a client announces in its `HTTP2-Settings` header, as
/// plain values (`None`: not announced). The header table size and the
/// frame size are not among them: webparse offers no way to set the first,
/// and the client leaves both at the peer's defaults.
#[derive(Debug, Clone, Copy, PartialEq, Eq, Structural)]
pub struct Http2Settings {
    pub enable_push: Option<bool>,
    pub max_concurrent_streams: Option<u32>,
    pub initial_window_size: Option<u32>,
    pub max_header_list_size: Option<u32>,
    pub enable_connect_protocol: Option<u32>,
}

impl Http2Settings {
    pub open spec fn spec_none() -> Http2Settings {
        Http2Settings {
            enable_push: None,
            max_concurrent_streams: None,
            initial_window_size: None,
            max_header_list_size: None,
            enable_connect_protocol: None,
        }
    }

    /// Nothing announced.
    pub fn new() -> (r: Http2Settings)
        ensures
            r == (Http2Settings {
                enable_push: None,
                max_concurrent_streams: None,
                initial_window_size: None,
                max_header_list_size: None,
                enable_connect_protocol: None,
            }),
    {
        Http2Settings {
            enable_push: None,
            max_concurrent_streams: None,
            initial_window_size: None,
            max_header_list_size: None,
            enable_connect_protocol: None,
        }
    }
}

/// The settings as a tuple of plain values, in the order of the fields.
pub open spec fn settings_values(s: Http2Settings) -> (Option<bool>, Option<u32>, Option<u32>, Option<u32>, Option<u32>) {
    (s.enable_push, s.max_concurrent_streams, s.initial_window_size, s.max_header_list_size, s.enable_connect_protocol)
}

/// A character of the URL-safe base64 alphabet (`A`-`Z`, `a`-`z`, `0`-`9`,
/// `-`, `_`).
pub open spec fn is_base64_url_char(c: char) -> bool {
    ('A' <= c && c <= 'Z') || ('a' <= c && c <= 'z') || ('0' <= c && c <= '9') || c == '-' || c == '_'
}

/// Text in the URL-safe base64 coding without padding: only characters of
/// its alphabet, and never a length of one more than a multiple of four.
pub open spec fn is_base64_url_text(s: Seq<char>) -> bool {
    &&& forall|i: int| 0 <= i < s.len() ==> is_base64_url_char(#[trigger] s[i])
    &&& s.len() % 4 != 1
}

/// What webparse's `encode_http_settings` gives for settings holding these
/// values (the others unset).
pub uninterp spec fn http2_settings_text(values: (Option<bool>, Option<u32>, Option<u32>, Option<u32>, Option<u32>)) -> Seq<char>;

/// `Settings::encode_http_settings` of webparse, on a `Settings::default()`
/// given these values by its setters: the announced entries, encoded as in
/// a SETTINGS frame, in the URL-safe base64 coding without padding
/// (`URL_SAFE_NO_PAD` of the base64 crate). Claimed: the text is
/// [`http2_settings_text`] of the values, and it is in that coding.
#[verifier::external_body]
fn encode_settings(settings: &Http2Settings) -> (r: String)
    ensures
        r@ == http2_settings_text(settings_values(*settings)),
        is_base64_url_text(r@),
{
    let mut s = Settings::default();
    if let Some(push) = settings.enable_push {
        s.set_enable_push(push);
    }
    s.set_max_concurrent_streams(settings.max_concurrent_streams);
    s.set_initial_window_size(settings.initial_window_size);
    s.set_max_header_list_size(settings.max_header_list_size);
    s.set_enable_connect_protocol(settings.enable_connect_protocol);
    s.encode_http_settings()
}

/// ALPN name of HTTP/2.
pub open spec fn alpn_h2() -> Seq<u8> {
    seq![104u8, 50u8]
}

/// ALPN name of HTTP/1.1.
pub open spec fn alpn_http11() -> Seq<u8> {
    seq![104u8, 116u8, 116u8, 112u8, 47u8, 49u8, 46u8, 49u8]
}

/// The protocols a client offers in TLS ALPN, in order of preference.
pub open spec fn spec_alpn(http2_only: bool, http2: bool) -> Seq<Seq<u8>> {
    if http2_only {
        seq![alpn_h2()]
    } else if http2 {
        seq![alpn_http11(), alpn_h2()]
    } else {
        seq![alpn_http11()]
    }
}

/// What a client speaks: HTTP/2 alone, or HTTP/1.1 with an optional
/// upgrade to HTTP/2.
pub struct ClientOption {
    pub http2_only: bool,
    pub http2: bool,
    pub settings: Http2Settings,
}

impl ClientOption {
    pub const H2_PROTOCOL: [u8; 2] = [104, 50];

    /// The ALPN protocol list for this option.
    pub fn get_alpn_protocol(&self) -> (r: Vec<Vec<u8>>)
        ensures
            r@.len() == spec_alpn(self.http2_only, self.http2).len(),
            forall|i: int| 0 <= i < r@.len() ==> #[trigger] r@[i]@ == spec_alpn(self.http2_only, self.http2)[i],
    {
        let h2: [u8; 2] = [104, 50];
        let h11: [u8; 8] = [104, 116, 116, 112, 47, 49, 46, 49];
        proof {
            assert(h2@ =~= alpn_h2());
            assert(h11@ =~= alpn_http11());
        }
        let mut ret: Vec<Vec<u8>> = Vec::new();
        if self.http2_only {
            let mut v: Vec<u8> = Vec::new();
            append_bytes(&mut v, &h2);
            ret.push(v);
        } else {
            let mut v: Vec<u8> = Vec::new();
            append_bytes(&mut v, &h11);
            ret.push(v);
            if self.http2 {
                let mut w: Vec<u8> = Vec::new();
                append_bytes(&mut w, &h2);
                ret.push(w);
            }
        }
        ret
    }

    /// The value of the `HTTP2-Settings` header sent with an upgrade request:
    /// the local settings in the URL-safe base64 coding without padding.
    pub fn get_http2_setting(&self) -> (r: String)
        ensures
            r@ == http2_settings_text(settings_values(self.settings)),
            is_base64_url_text(r@),
    {
        encode_settings(&self.settings)
    }

    /// The protocol the TLS handshake settled on: none is refused; HTTP/2
    /// makes the client speak HTTP/2 alone; anything else leaves the option
    /// as it is.
    pub fn apply_alpn(&mut self, negotiated: Option<&[u8]>) -> (r: ProtResult<()>)
        ensures
            match negotiated {
                None => r == Err::<(), ProtError>(ProtError::Extension("not support protocol"))
                    && final(self).http2_only == old(self).http2_only,
                Some(p) => r is Ok && final(self).http2_only == (old(self).http2_only || p@ == alpn_h2()),
            },
            final(self).http2 == old(self).http2,
            final(self).settings == old(self).settings,
    {
        match negotiated {
            None => Err(ProtError::Extension("not support protocol")),
            Some(p) => {
                if p.len() == 2 && p[0] == 104 && p[1] == 50 {
                    assert(p@ =~= alpn_h2());
                    self.http2_only = true;
                } else {
                    assert(p@ != alpn_h2());
                }
                Ok(())
            },
        }
    }

    /// A copy of this option.
    pub fn duplicate(&self) -> (r: ClientOption)
        ensures
            r.http2_only == self.http2_only,
            r.http2 == self.http2,
            r.settings == self.settings,
    {
        ClientOption { http2_only: self.http2_only, http2: self.http2, settings: self.settings }
    }
}

impl Default for ClientOption {
    /// HTTP/1.1 first, with an upgrade to HTTP/2 offered.
    fn default() -> (r: ClientOption)
        ensures
            !r.http2_only,
            r.http2,
            r.settings == Http2Settings::spec_none(),
    {
        ClientOption { http2_only: false, http2: true, settings: Http2Settings::new() }
    }
}

/// Builds a [`ClientOption`] step by step.
pub struct Builder {
    pub inner: ProtResult<ClientOption>,
}

impl Builder {
    /// Starts from the default option.
    pub fn new() -> (r: Builder)
        ensures
            r.inner matches Ok(v) && !v.http2_only && v.http2 && v.settings == Http2Settings::spec_none(),
    {
        Builder { inner: Ok(ClientOption::default()) }
    }

    /// Speak HTTP/2 alone (or not).
    pub fn http2_only(self, http2: bool) -> (r: Builder)
        ensures
            match self.inner {
                Ok(v) => r.inner matches Ok(w) && w.http2_only == http2 && w.http2 == v.http2
                    && w.settings == v.settings,
                Err(_) => r.inner is Err,
            },
    {
        match self.inner {
            Ok(v) => Builder { inner: Ok(ClientOption { http2_only: http2, http2: v.http2, settings: v.settings }) },
            Err(e) => Builder { inner: Err(e) },
        }
    }

    /// Offer (or do not offer) the upgrade to HTTP/2.
    pub fn http2(self, http2: bool) -> (r: Builder)
        ensures
            match self.inner {
                Ok(v) => r.inner matches Ok(w) && w.http2 == http2 && w.http2_only == v.http2_only
                    && w.settings == v.settings,
                Err(_) => r.inner is Err,
            },
    {
        match self.inner {
            Ok(v) => Builder { inner: Ok(ClientOption { http2_only: v.http2_only, http2, settings: v.settings }) },
            Err(e) => Builder { inner: Err(e) },
        }
    }

    /// The option built so far.
    pub fn value(self) -> (r: ProtResult<ClientOption>)
        ensures
            r == self.inner,
    {
        self.inner
    }
}

// ---------------------------------------------------------------------------
// The client's event loop
// ---------------------------------------------------------------------------

/// `Connection: Upgrade, HTTP2-Settings`
pub open spec fn upgrade_connection_value() -> Seq<u8> {
    seq![85u8, 112u8, 103u8, 114u8, 97u8, 100u8, 101u8, 44u8, 32u8, 72u8, 84u8, 84u8, 80u8, 50u8, 45u8,
        83u8, 101u8, 116u8, 116u8, 105u8, 110u8, 103u8, 115u8]
}

/// `h2c`
pub open spec fn h2c_token() -> Seq<u8> {
    seq![104u8, 50u8, 99u8]
}

/// Header names of an upgrade request.
pub open spec fn connection_name() -> Seq<u8> {
    seq![67u8, 111u8, 110u8, 110u8, 101u8, 99u8, 116u8, 105u8, 111u8, 110u8]
}

pub open spec fn upgrade_name() -> Seq<u8> {
    seq![85u8, 112u8, 103u8, 114u8, 97u8, 100u8, 101u8]
}

pub open spec fn http2_settings_name() -> Seq<u8> {
    seq![72u8, 84u8, 84u8, 80u8, 50u8, 45u8, 83u8, 101u8, 116u8, 116u8, 105u8, 110u8, 103u8, 115u8]
}

/// A header to set on a request: name and value.
pub struct HeaderPair {
    pub name: Vec<u8>,
    pub value: Vec<u8>,
}

/// Which protocol a client connection currently speaks.
#[derive(Debug, Clone, Copy, PartialEq, Eq, Structural)]
pub enum ClientProtocol {
    Http1,
    Http2,
}

/// What the connection or the request channel of a client reported.
#[derive(Debug, Clone, Copy, PartialEq, Eq, Structural)]
pub enum ClientEvent {
    /// A response arrived.
    Response,
    /// The connection ended without error.
    Finished,
    /// The server agreed to switch to HTTP/2.
    UpgradeHttp2,
    /// The connection failed.
    Failed,
    /// The user handed over another request.
    Request,
    /// The user's request channel closed.
    RequestsClosed,
}

/// What the client does next.
#[derive(Debug, Clone, Copy, PartialEq, Eq, Structural)]
pub enum ClientAction {
    /// Hand the response to the user and go on.
    Forward,
    /// Send the new request on the current connection and go on.
    SendRequest,
    /// Turn the HTTP/1.1 connection into an HTTP/2 one and go on.
    SwitchToHttp2,
    /// Stop listening to the request channel and go on.
    CloseRequests,
    /// End the loop successfully.
    Stop,
    /// End the loop with the error.
    Fail,
}

/// The part of a client's state that its event loop decides on.
#[derive(Debug, Clone, Copy, PartialEq, Eq, Structural)]
pub struct ClientLoop {
    pub protocol: ClientProtocol,
    pub listens_requests: bool,
}

pub open spec fn spec_client_step(s: ClientLoop, ev: ClientEvent) -> (ClientLoop, ClientAction) {
    match ev {
        ClientEvent::Response => (s, ClientAction::Forward),
        ClientEvent::Finished => (s, ClientAction::Stop),
        ClientEvent::UpgradeHttp2 => if s.protocol == ClientProtocol::Http1 {
            (ClientLoop { protocol: ClientProtocol::Http2, ..s }, ClientAction::SwitchToHttp2)
        } else {
            (s, ClientAction::Fail)
        },
        ClientEvent::Failed => (s, ClientAction::Fail),
        ClientEvent::Request => (s, ClientAction::SendRequest),
        ClientEvent::RequestsClosed => (ClientLoop { listens_requests: false, ..s }, ClientAction::CloseRequests),
    }
}

/// A client's connection only ever moves from HTTP/1.1 to HTTP/2, on the
/// server's agreement, and never back; once on HTTP/2 a second request to
/// switch is an error.
pub proof fn law_client_upgrades_once(s: ClientLoop, ev: ClientEvent)
    ensures
        ({
            let (t, a) = spec_client_step(s, ev);
            &&& t.protocol == s.protocol || (s.protocol == ClientProtocol::Http1 && t.protocol == ClientProtocol::Http2
                && ev == ClientEvent::UpgradeHttp2 && a == ClientAction::SwitchToHttp2)
            &&& (a == ClientAction::SwitchToHttp2 ==> spec_client_step(t, ClientEvent::UpgradeHttp2).1 == ClientAction::Fail)
        }),
{
}

impl ClientLoop {
    /// A new client starts on HTTP/2 when it speaks nothing else, else on
    /// HTTP/1.1; it listens to a request channel only once the user asked
    /// for one.
    pub fn new(option: &ClientOption) -> (r: ClientLoop)
        ensures
            r.protocol == (if option.http2_only { ClientProtocol::Http2 } else { ClientProtocol::Http1 }),
            !r.listens_requests,
    {
        let protocol = if option.http2_only { ClientProtocol::Http2 } else { ClientProtocol::Http1 };
        ClientLoop { protocol, listens_requests: false }
    }

    /// The user asked for a request channel.
    pub fn open_requests(&mut self)
        ensures
            *final(self) == (ClientLoop { listens_requests: true, ..*old(self) }),
    {
        self.listens_requests = true;
    }

    /// The decision on one event of the loop.
    pub fn step(&mut self, ev: ClientEvent) -> (r: ClientAction)
        ensures
            (*final(self), r) == spec_client_step(*old(self), ev),
    {
        match ev {
            ClientEvent::Response => ClientAction::Forward,
            ClientEvent::Finished => ClientAction::Stop,
            ClientEvent::UpgradeHttp2 => {
                if self.protocol == ClientProtocol::Http1 {
                    self.protocol = ClientProtocol::Http2;
                    ClientAction::SwitchToHttp2
                } else {
                    ClientAction::Fail
                }
            },
            ClientEvent::Failed => ClientAction::Fail,
            ClientEvent::Request => ClientAction::SendRequest,
            ClientEvent::RequestsClosed => {
                self.listens_requests = false;
                ClientAction::CloseRequests
            },
        }
    }

    /// The headers that ask the server to upgrade to HTTP/2: added when the
    /// client offers HTTP/2 and still speaks HTTP/1.1, else none.
    pub fn rebuild_request(&self, option: &ClientOption) -> (r: Vec<HeaderPair>)
        ensures
            if option.http2 && self.protocol == ClientProtocol::Http1 {
                &&& r@.len() == 3
                &&& r@[0].name@ == connection_name() && r@[0].value@ == upgrade_connection_value()
                &&& r@[1].name@ == upgrade_name() && r@[1].value@ == h2c_token()
                &&& r@[2].name@ == http2_settings_name()
                &&& r@[2].value@ == encode_utf8(http2_settings_text(settings_values(option.settings)))
            } else {
                r@.len() == 0
            },
    {
        let mut out: Vec<HeaderPair> = Vec::new();
        if option.http2 && self.protocol == ClientProtocol::Http1 {
            let conn_name: [u8; 10] = [67, 111, 110, 110, 101, 99, 116, 105, 111, 110];
            let conn_value: [u8; 23] = [85, 112, 103, 114, 97, 100, 101, 44, 32, 72, 84, 84, 80, 50, 45, 83,
                101, 116, 116, 105, 110, 103, 115];
            let up_name: [u8; 7] = [85, 112, 103, 114, 97, 100, 101];
            let up_value: [u8; 3] = [104, 50, 99];
            let set_name: [u8; 14] = [72, 84, 84, 80, 50, 45, 83, 101, 116, 116, 105, 110, 103, 115];
            proof {
                assert(conn_name@ =~= connection_name());
                assert(conn_value@ =~= upgrade_connection_value());
                assert(up_name@ =~= upgrade_name());
                assert(up_value@ =~= h2c_token());
                assert(set_name@ =~= http2_settings_name());
            }
            let mut n1: Vec<u8> = Vec::new();
            append_bytes(&mut n1, &conn_name);
            let mut v1: Vec<u8> = Vec::new();
            append_bytes(&mut v1, &conn_value);
            out.push(HeaderPair { name: n1, value: v1 });
            let mut n2: Vec<u8> = Vec::new();
            append_bytes(&mut n2, &up_name);
            let mut v2: Vec<u8> = Vec::new();
            append_bytes(&mut v2, &up_value);
            out.push(HeaderPair { name: n2, value: v2 });
            let mut n3: Vec<u8> = Vec::new();
            append_bytes(&mut n3, &set_name);
            let text = option.get_http2_setting();
            let mut v3: Vec<u8> = Vec::new();
            append_bytes(&mut v3, text.as_str().as_bytes());
            out.push(HeaderPair { name: n3, value: v3 });
        }
        out
    }
}

/// Refuses a second request channel.
pub fn check_split(has_receiver: bool) -> (r: ProtResult<()>)
    ensures
        has_receiver <==> r is Ok,
        !has_receiver ==> r == Err::<(), ProtError>(ProtError::Extension("receiver error")),
{
    if !has_receiver {
        return Err(ProtError::Extension("receiver error"));
    }
    Ok(())
}

} // verus!
