//! The configuration data model: listener (server) configurations,
//! egress (client) configurations, routing rules, and the group
//! selections that the validation pass expands. Each type has a
//! mathematical model (`...V`) over which the contracts speak.

use vstd::prelude::*;

use crate::address::{Address, AddressV, NetLocation, NetLocationMask, NetLocationV};
use crate::clone_util::DeepClone;
use crate::option_util::{NoneOrOne, NoneOrSome, OneOrSome};

verus! {

/// Where a listener binds: a network address, or a Unix socket path.
#[derive(Debug, Clone)]
pub enum BindLocation {
    Address(NetLocation),
    Path(String),
}

/// Mathematical model of a [`BindLocation`].
#[verifier::ext_equal]
pub enum BindLocationV {
    Address(NetLocationV),
    Path(Seq<char>),
}

impl DeepView for BindLocation {
    type V = BindLocationV;

    open spec fn deep_view(&self) -> BindLocationV {
        match self {
            BindLocation::Address(a) => BindLocationV::Address(a.deep_view()),
            BindLocation::Path(p) => BindLocationV::Path(p@),
        }
    }
}

/// The transport a listener or egress connection uses.
#[derive(Debug, Clone, Copy, PartialEq, Eq, Structural)]
pub enum Transport {
    Tcp,
    Quic,
    Udp,
}

impl Default for Transport {
    /// The default transport is TCP.
    fn default() -> (r: Self)
        ensures
            r == Transport::Tcp,
    {
        Transport::Tcp
    }
}

impl DeepView for Transport {
    type V = Transport;

    open spec fn deep_view(&self) -> Transport {
        *self
    }
}

impl DeepClone for Transport {
    fn deep_clone(&self) -> (r: Self) {
        *self
    }
}

/// TCP socket settings.
#[derive(Debug, Clone, Copy, PartialEq, Eq, Structural)]
pub struct TcpConfig {
    pub no_delay: bool,
}

impl Default for TcpConfig {
    /// By default, TCP_NODELAY is enabled.
    fn default() -> (r: Self)
        ensures
            r == (TcpConfig { no_delay: true }),
    {
        TcpConfig { no_delay: true }
    }
}

impl DeepView for TcpConfig {
    type V = TcpConfig;

    open spec fn deep_view(&self) -> TcpConfig {
        *self
    }
}

impl DeepClone for TcpConfig {
    fn deep_clone(&self) -> (r: Self) {
        *self
    }
}

/// QUIC settings for a listener: certificate, key, and ALPN protocols.
#[derive(Debug, Clone)]
pub struct ServerQuicConfig {
    pub cert: String,
    pub key: String,
    pub alpn_protocols: NoneOrSome<String>,
}

/// Mathematical model of a [`ServerQuicConfig`].
#[verifier::ext_equal]
pub struct ServerQuicConfigV {
    pub cert: Seq<char>,
    pub key: Seq<char>,
    pub alpn_protocols: Seq<Seq<char>>,
}

impl DeepView for ServerQuicConfig {
    type V = ServerQuicConfigV;

    open spec fn deep_view(&self) -> ServerQuicConfigV {
        ServerQuicConfigV {
            cert: self.cert@,
            key: self.key@,
            alpn_protocols: self.alpn_protocols.deep_view(),
        }
    }
}

impl DeepClone for ServerQuicConfig {
    fn deep_clone(&self) -> (r: Self) {
        ServerQuicConfig {
            cert: self.cert.clone(),
            key: self.key.clone(),
            alpn_protocols: self.alpn_protocols.deep_clone(),
        }
    }
}

/// Cipher and password for Shadowsocks-style protocols.
#[derive(Debug, Clone)]
pub struct ShadowsocksConfig {
    pub cipher: String,
    pub password: String,
}

/// Mathematical model of a [`ShadowsocksConfig`].
#[verifier::ext_equal]
pub struct ShadowsocksConfigV {
    pub cipher: Seq<char>,
    pub password: Seq<char>,
}

impl DeepView for ShadowsocksConfig {
    type V = ShadowsocksConfigV;

    open spec fn deep_view(&self) -> ShadowsocksConfigV {
        ShadowsocksConfigV { cipher: self.cipher@, password: self.password@ }
    }
}

impl DeepClone for ShadowsocksConfig {
    fn deep_clone(&self) -> (r: Self) {
        ShadowsocksConfig { cipher: self.cipher.clone(), password: self.password.clone() }
    }
}

/// The keepalive policy of a WebSocket wrapper.
#[derive(Debug, Clone, Copy, PartialEq, Eq, Structural)]
pub enum WebsocketPingType {
    Disabled,
    PingFrame,
    EmptyFrame,
}

impl Default for WebsocketPingType {
    /// Ping frames are the default keepalive: they make the remote end
    /// answer with a pong, which keeps intermediaries from timing the
    /// connection out. Empty data frames exist for clients that
    /// disconnect on receiving a ping.
    fn default() -> (r: Self)
        ensures
            r == WebsocketPingType::PingFrame,
    {
        WebsocketPingType::PingFrame
    }
}

impl DeepView for WebsocketPingType {
    type V = WebsocketPingType;

    open spec fn deep_view(&self) -> WebsocketPingType {
        *self
    }
}

impl DeepClone for WebsocketPingType {
    fn deep_clone(&self) -> (r: Self) {
        *self
    }
}

/// A selection: an inline configuration, or a reference to a named
/// group. After validation only the inline form remains.
#[derive(Debug)]
pub enum ConfigSelection<T> {
    Config(T),
    GroupName(String),
}

/// Mathematical model of a [`ConfigSelection`].
#[verifier::ext_equal]
pub enum ConfigSelectionV<V> {
    Config(V),
    GroupName(Seq<char>),
}

impl<T: DeepView> DeepView for ConfigSelection<T> {
    type V = ConfigSelectionV<T::V>;

    open spec fn deep_view(&self) -> ConfigSelectionV<T::V> {
        match self {
            ConfigSelection::Config(c) => ConfigSelectionV::Config(c.deep_view()),
            ConfigSelection::GroupName(g) => ConfigSelectionV::GroupName(g@),
        }
    }
}

impl<T: DeepClone> DeepClone for ConfigSelection<T> {
    fn deep_clone(&self) -> (r: Self) {
        match self {
            ConfigSelection::Config(c) => ConfigSelection::Config(c.deep_clone()),
            ConfigSelection::GroupName(g) => ConfigSelection::GroupName(g.clone()),
        }
    }
}

impl<T> ConfigSelection<T> {
    /// The inline configuration, which must be present.
    pub fn unwrap_config(self) -> (r: T)
        requires
            self is Config,
        ensures
            r == self->Config_0,
    {
        match self {
            ConfigSelection::Config(config) => config,
            ConfigSelection::GroupName(_) => unreached(),
        }
    }

    /// A reference to the inline configuration, which must be present.
    pub fn config_ref(&self) -> (r: &T)
        requires
            self is Config,
        ensures
            *r == self->Config_0,
    {
        match self {
            ConfigSelection::Config(config) => config,
            ConfigSelection::GroupName(_) => unreached(),
        }
    }
}

/// A TLS wrapper target: certificate material, an inner protocol, and
/// rules that override the listener's rules for this target.
#[derive(Debug)]
pub struct TlsServerConfig {
    pub cert: String,
    pub key: String,
    pub alpn_protocols: NoneOrSome<String>,
    pub protocol: ServerProxyConfig,
    pub override_rules: NoneOrSome<ConfigSelection<RuleConfig>>,
}

/// Mathematical model of a [`TlsServerConfig`].
#[verifier::ext_equal]
pub struct TlsServerConfigV {
    pub cert: Seq<char>,
    pub key: Seq<char>,
    pub alpn_protocols: Seq<Seq<char>>,
    pub protocol: ServerProxyConfigV,
    pub override_rules: Seq<ConfigSelectionV<RuleConfigV>>,
}

/// A WebSocket wrapper target: request matching, an inner protocol, the
/// keepalive policy, and override rules.
#[derive(Debug)]
pub struct WebsocketServerConfig {
    pub matching_path: Option<String>,
    pub matching_headers: Option<Vec<(String, String)>>,
    pub protocol: ServerProxyConfig,
    pub ping_type: WebsocketPingType,
    pub override_rules: NoneOrSome<ConfigSelection<RuleConfig>>,
}

/// Mathematical model of a [`WebsocketServerConfig`].
#[verifier::ext_equal]
pub struct WebsocketServerConfigV {
    pub matching_path: Option<Seq<char>>,
    pub matching_headers: Option<Seq<(Seq<char>, Seq<char>)>>,
    pub protocol: ServerProxyConfigV,
    pub ping_type: WebsocketPingType,
    pub override_rules: Seq<ConfigSelectionV<RuleConfigV>>,
}

/// The protocol stack of a listener: a terminal proxy protocol, or a
/// wrapping transport (TLS, WebSocket) with a nested protocol.
#[derive(Debug)]
pub enum ServerProxyConfig {
    Http { username: Option<String>, password: Option<String> },
    Socks { username: Option<String>, password: Option<String> },
    Shadowsocks(ShadowsocksConfig),
    Snell(ShadowsocksConfig),
    Vless { user_id: String },
    Trojan { password: String, shadowsocks: Option<ShadowsocksConfig> },
    Tls {
        sni_targets: Vec<(String, TlsServerConfig)>,
        default_target: Option<Box<TlsServerConfig>>,
    },
    Vmess { cipher: String, user_id: String, force_aead: bool, udp_enabled: bool },
    Websocket { targets: Box<OneOrSome<WebsocketServerConfig>> },
    PortForward { targets: OneOrSome<NetLocation> },
}

/// Mathematical model of a [`ServerProxyConfig`].
#[verifier::ext_equal]
pub enum ServerProxyConfigV {
    Http { username: Option<Seq<char>>, password: Option<Seq<char>> },
    Socks { username: Option<Seq<char>>, password: Option<Seq<char>> },
    Shadowsocks(ShadowsocksConfigV),
    Snell(ShadowsocksConfigV),
    Vless { user_id: Seq<char> },
    Trojan { password: Seq<char>, shadowsocks: Option<ShadowsocksConfigV> },
    Tls {
        sni_targets: Seq<(Seq<char>, TlsServerConfigV)>,
        default_target: Option<Box<TlsServerConfigV>>,
    },
    Vmess { cipher: Seq<char>, user_id: Seq<char>, force_aead: bool, udp_enabled: bool },
    Websocket { targets: Seq<WebsocketServerConfigV> },
    PortForward { targets: Seq<NetLocationV> },
}

/// The model of a list of named TLS targets.
pub open spec fn view_tls_targets(s: Seq<(String, TlsServerConfig)>) -> Seq<
    (Seq<char>, TlsServerConfigV),
>
    decreases s,
{
    if s.len() == 0 {
        Seq::empty()
    } else {
        view_tls_targets(s.drop_last()).push((s.last().0@, view_tls_target(s.last().1)))
    }
}

/// The model of a list of WebSocket targets.
pub open spec fn view_ws_targets(s: Seq<WebsocketServerConfig>) -> Seq<WebsocketServerConfigV>
    decreases s,
{
    if s.len() == 0 {
        Seq::empty()
    } else {
        view_ws_targets(s.drop_last()).push(view_ws_target(s.last()))
    }
}

/// The model of a TLS wrapper target.
pub open spec fn view_tls_target(t: TlsServerConfig) -> TlsServerConfigV
    decreases t,
{
    TlsServerConfigV {
        cert: t.cert@,
        key: t.key@,
        alpn_protocols: t.alpn_protocols.deep_view(),
        protocol: view_server_proxy(t.protocol),
        override_rules: t.override_rules.deep_view(),
    }
}

/// The model of a WebSocket wrapper target.
pub open spec fn view_ws_target(w: WebsocketServerConfig) -> WebsocketServerConfigV
    decreases w,
{
    WebsocketServerConfigV {
        matching_path: w.matching_path.deep_view(),
        matching_headers: w.matching_headers.deep_view(),
        protocol: view_server_proxy(w.protocol),
        ping_type: w.ping_type,
        override_rules: w.override_rules.deep_view(),
    }
}

/// The model of a server protocol stack.
pub open spec fn view_server_proxy(p: ServerProxyConfig) -> ServerProxyConfigV
    decreases p,
{
    match p {
        ServerProxyConfig::Http { username, password } => ServerProxyConfigV::Http {
            username: username.deep_view(),
            password: password.deep_view(),
        },
        ServerProxyConfig::Socks { username, password } => ServerProxyConfigV::Socks {
            username: username.deep_view(),
            password: password.deep_view(),
        },
        ServerProxyConfig::Shadowsocks(c) => ServerProxyConfigV::Shadowsocks(c.deep_view()),
        ServerProxyConfig::Snell(c) => ServerProxyConfigV::Snell(c.deep_view()),
        ServerProxyConfig::Vless { user_id } => ServerProxyConfigV::Vless { user_id: user_id@ },
        ServerProxyConfig::Trojan { password, shadowsocks } => ServerProxyConfigV::Trojan {
            password: password@,
            shadowsocks: shadowsocks.deep_view(),
        },
        ServerProxyConfig::Tls { sni_targets, default_target } => ServerProxyConfigV::Tls {
            sni_targets: view_tls_targets(sni_targets@),
            default_target: match default_target {
                Option::Some(t) => Option::Some(Box::new(view_tls_target(*t))),
                Option::None => Option::None,
            },
        },
        ServerProxyConfig::Vmess { cipher, user_id, force_aead, udp_enabled } => {
            ServerProxyConfigV::Vmess {
                cipher: cipher@,
                user_id: user_id@,
                force_aead,
                udp_enabled,
            }
        },
        ServerProxyConfig::Websocket { targets } => ServerProxyConfigV::Websocket {
            targets: match *targets {
                OneOrSome::One(t) => seq![view_ws_target(t)],
                OneOrSome::Many(v) => view_ws_targets(v@),
            },
        },
        ServerProxyConfig::PortForward { targets } => ServerProxyConfigV::PortForward {
            targets: targets.deep_view(),
        },
    }
}

/// The model of a TLS target list, element by element.
pub proof fn lemma_view_tls_targets(s: Seq<(String, TlsServerConfig)>)
    ensures
        view_tls_targets(s).len() == s.len(),
        forall|i: int|
            0 <= i < s.len() ==> view_tls_targets(s)[i] == (s[i].0@, view_tls_target(s[i].1)),
    decreases s.len(),
{
    if s.len() > 0 {
        lemma_view_tls_targets(s.drop_last());
    }
}

/// The model of a WebSocket target list, element by element.
pub proof fn lemma_view_ws_targets(s: Seq<WebsocketServerConfig>)
    ensures
        view_ws_targets(s).len() == s.len(),
        forall|i: int| 0 <= i < s.len() ==> view_ws_targets(s)[i] == view_ws_target(s[i]),
    decreases s.len(),
{
    if s.len() > 0 {
        lemma_view_ws_targets(s.drop_last());
    }
}

impl DeepView for ServerProxyConfig {
    type V = ServerProxyConfigV;

    open spec fn deep_view(&self) -> ServerProxyConfigV {
        view_server_proxy(*self)
    }
}

impl DeepView for TlsServerConfig {
    type V = TlsServerConfigV;

    open spec fn deep_view(&self) -> TlsServerConfigV {
        view_tls_target(*self)
    }
}

impl DeepView for WebsocketServerConfig {
    type V = WebsocketServerConfigV;

    open spec fn deep_view(&self) -> WebsocketServerConfigV {
        view_ws_target(*self)
    }
}

/// QUIC settings for an egress connection.
#[derive(Debug, Clone)]
pub struct ClientQuicConfig {
    pub verify: bool,
    pub sni_hostname: NoneOrOne<String>,
    pub alpn_protocols: NoneOrSome<String>,
}

/// Mathematical model of a [`ClientQuicConfig`].
#[verifier::ext_equal]
pub struct ClientQuicConfigV {
    pub verify: bool,
    pub sni_hostname: Option<Seq<char>>,
    pub alpn_protocols: Seq<Seq<char>>,
}

impl DeepView for ClientQuicConfig {
    type V = ClientQuicConfigV;

    open spec fn deep_view(&self) -> ClientQuicConfigV {
        ClientQuicConfigV {
            verify: self.verify,
            sni_hostname: self.sni_hostname.deep_view(),
            alpn_protocols: self.alpn_protocols.deep_view(),
        }
    }
}

impl DeepClone for ClientQuicConfig {
    fn deep_clone(&self) -> (r: Self) {
        ClientQuicConfig {
            verify: self.verify,
            sni_hostname: self.sni_hostname.deep_clone(),
            alpn_protocols: self.alpn_protocols.deep_clone(),
        }
    }
}

impl Default for ClientQuicConfig {
    /// By default certificates are verified and nothing else is set.
    fn default() -> (r: Self)
        ensures
            r.deep_view() == (ClientQuicConfigV {
                verify: true,
                sni_hostname: Option::<Seq<char>>::None,
                alpn_protocols: Seq::<Seq<char>>::empty(),
            }),
    {
        ClientQuicConfig {
            verify: true,
            sni_hostname: NoneOrOne::Unspecified,
            alpn_protocols: NoneOrSome::Unspecified,
        }
    }
}

/// TLS settings for an egress connection, wrapping a nested protocol.
#[derive(Debug)]
pub struct TlsClientConfig {
    pub verify: bool,
    pub sni_hostname: NoneOrOne<String>,
    pub alpn_protocols: NoneOrSome<String>,
    pub protocol: Box<ClientProxyConfig>,
}

/// Mathematical model of a [`TlsClientConfig`].
#[verifier::ext_equal]
pub struct TlsClientConfigV {
    pub verify: bool,
    pub sni_hostname: Option<Seq<char>>,
    pub alpn_protocols: Seq<Seq<char>>,
    pub protocol: ClientProxyConfigV,
}

/// WebSocket settings for an egress connection, wrapping a nested
/// protocol.
#[derive(Debug)]
pub struct WebsocketClientConfig {
    pub matching_path: Option<String>,
    pub matching_headers: Option<Vec<(String, String)>>,
    pub ping_type: WebsocketPingType,
    pub protocol: Box<ClientProxyConfig>,
}

/// Mathematical model of a [`WebsocketClientConfig`].
#[verifier::ext_equal]
pub struct WebsocketClientConfigV {
    pub matching_path: Option<Seq<char>>,
    pub matching_headers: Option<Seq<(Seq<char>, Seq<char>)>>,
    pub ping_type: WebsocketPingType,
    pub protocol: ClientProxyConfigV,
}

/// The egress protocol: a direct connection, or a proxy protocol
/// (possibly wrapped in TLS or WebSocket) used to reach the upstream.
#[derive(Debug)]
pub enum ClientProxyConfig {
    Direct,
    Http { username: Option<String>, password: Option<String> },
    Socks { username: Option<String>, password: Option<String> },
    Shadowsocks(ShadowsocksConfig),
    Snell(ShadowsocksConfig),
    Vless { user_id: String },
    Trojan { password: String, shadowsocks: Option<ShadowsocksConfig> },
    Tls(TlsClientConfig),
    Vmess { cipher: String, user_id: String, aead: bool },
    Websocket(WebsocketClientConfig),
}

/// Mathematical model of a [`ClientProxyConfig`].
#[verifier::ext_equal]
pub enum ClientProxyConfigV {
    Direct,
    Http { username: Option<Seq<char>>, password: Option<Seq<char>> },
    Socks { username: Option<Seq<char>>, password: Option<Seq<char>> },
    Shadowsocks(ShadowsocksConfigV),
    Snell(ShadowsocksConfigV),
    Vless { user_id: Seq<char> },
    Trojan { password: Seq<char>, shadowsocks: Option<ShadowsocksConfigV> },
    Tls(Box<TlsClientConfigV>),
    Vmess { cipher: Seq<char>, user_id: Seq<char>, aead: bool },
    Websocket(Box<WebsocketClientConfigV>),
}

/// The model of an egress protocol.
pub open spec fn view_client_proxy(p: ClientProxyConfig) -> ClientProxyConfigV
    decreases p,
{
    match p {
        ClientProxyConfig::Direct => ClientProxyConfigV::Direct,
        ClientProxyConfig::Http { username, password } => ClientProxyConfigV::Http {
            username: username.deep_view(),
            password: password.deep_view(),
        },
        ClientProxyConfig::Socks { username, password } => ClientProxyConfigV::Socks {
            username: username.deep_view(),
            password: password.deep_view(),
        },
        ClientProxyConfig::Shadowsocks(c) => ClientProxyConfigV::Shadowsocks(c.deep_view()),
        ClientProxyConfig::Snell(c) => ClientProxyConfigV::Snell(c.deep_view()),
        ClientProxyConfig::Vless { user_id } => ClientProxyConfigV::Vless { user_id: user_id@ },
        ClientProxyConfig::Trojan { password, shadowsocks } => ClientProxyConfigV::Trojan {
            password: password@,
            shadowsocks: shadowsocks.deep_view(),
        },
        ClientProxyConfig::Tls(t) => ClientProxyConfigV::Tls(
            Box::new(
                TlsClientConfigV {
                    verify: t.verify,
                    sni_hostname: t.sni_hostname.deep_view(),
                    alpn_protocols: t.alpn_protocols.deep_view(),
                    protocol: view_client_proxy(*t.protocol),
                },
            ),
        ),
        ClientProxyConfig::Vmess { cipher, user_id, aead } => ClientProxyConfigV::Vmess {
            cipher: cipher@,
            user_id: user_id@,
            aead,
        },
        ClientProxyConfig::Websocket(w) => ClientProxyConfigV::Websocket(
            Box::new(
                WebsocketClientConfigV {
                    matching_path: w.matching_path.deep_view(),
                    matching_headers: w.matching_headers.deep_view(),
                    ping_type: w.ping_type,
                    protocol: view_client_proxy(*w.protocol),
                },
            ),
        ),
    }
}

impl DeepView for ClientProxyConfig {
    type V = ClientProxyConfigV;

    open spec fn deep_view(&self) -> ClientProxyConfigV {
        view_client_proxy(*self)
    }
}

impl ClientProxyConfig {
    /// True when this egress is a direct connection.
    pub fn is_direct(&self) -> (r: bool)
        ensures
            r == (self.deep_view() is Direct),
    {
        match self {
            ClientProxyConfig::Direct => true,
            _ => false,
        }
    }
}

/// A copy of an egress protocol with the same model.
fn clone_client_proxy(p: &ClientProxyConfig) -> (r: ClientProxyConfig)
    ensures
        r.deep_view() == p.deep_view(),
    decreases *p,
{
    match p {
        ClientProxyConfig::Direct => ClientProxyConfig::Direct,
        ClientProxyConfig::Http { username, password } => ClientProxyConfig::Http {
            username: username.deep_clone(),
            password: password.deep_clone(),
        },
        ClientProxyConfig::Socks { username, password } => ClientProxyConfig::Socks {
            username: username.deep_clone(),
            password: password.deep_clone(),
        },
        ClientProxyConfig::Shadowsocks(c) => ClientProxyConfig::Shadowsocks(c.deep_clone()),
        ClientProxyConfig::Snell(c) => ClientProxyConfig::Snell(c.deep_clone()),
        ClientProxyConfig::Vless { user_id } => ClientProxyConfig::Vless {
            user_id: user_id.clone(),
        },
        ClientProxyConfig::Trojan { password, shadowsocks } => ClientProxyConfig::Trojan {
            password: password.clone(),
            shadowsocks: shadowsocks.deep_clone(),
        },
        ClientProxyConfig::Tls(t) => ClientProxyConfig::Tls(
            TlsClientConfig {
                verify: t.verify,
                sni_hostname: t.sni_hostname.deep_clone(),
                alpn_protocols: t.alpn_protocols.deep_clone(),
                protocol: Box::new(clone_client_proxy(&t.protocol)),
            },
        ),
        ClientProxyConfig::Vmess { cipher, user_id, aead } => ClientProxyConfig::Vmess {
            cipher: cipher.clone(),
            user_id: user_id.clone(),
            aead: *aead,
        },
        ClientProxyConfig::Websocket(w) => ClientProxyConfig::Websocket(
            WebsocketClientConfig {
                matching_path: w.matching_path.deep_clone(),
                matching_headers: w.matching_headers.deep_clone(),
                ping_type: w.ping_type,
                protocol: Box::new(clone_client_proxy(&w.protocol)),
            },
        ),
    }
}

impl DeepClone for ClientProxyConfig {
    fn deep_clone(&self) -> (r: Self) {
        clone_client_proxy(self)
    }
}

/// One egress configuration: where to bind, which protocol to speak,
/// and over which transport.
#[derive(Debug)]
pub struct ClientConfig {
    pub bind_interface: NoneOrOne<String>,
    pub address: NetLocation,
    pub protocol: ClientProxyConfig,
    pub transport: Transport,
    pub tcp_settings: Option<TcpConfig>,
    pub quic_settings: Option<ClientQuicConfig>,
}

/// Mathematical model of a [`ClientConfig`].
#[verifier::ext_equal]
pub struct ClientConfigV {
    pub bind_interface: Option<Seq<char>>,
    pub address: NetLocationV,
    pub protocol: ClientProxyConfigV,
    pub transport: Transport,
    pub tcp_settings: Option<TcpConfig>,
    pub quic_settings: Option<ClientQuicConfigV>,
}

impl DeepView for ClientConfig {
    type V = ClientConfigV;

    open spec fn deep_view(&self) -> ClientConfigV {
        ClientConfigV {
            bind_interface: self.bind_interface.deep_view(),
            address: self.address.deep_view(),
            protocol: self.protocol.deep_view(),
            transport: self.transport,
            tcp_settings: self.tcp_settings,
            quic_settings: self.quic_settings.deep_view(),
        }
    }
}

impl ClientConfigV {
    /// The default egress: a direct connection over TCP from an
    /// unspecified bind address.
    pub open spec fn default_v() -> ClientConfigV {
        ClientConfigV {
            bind_interface: Option::<Seq<char>>::None,
            address: NetLocationV::unspecified(),
            protocol: ClientProxyConfigV::Direct,
            transport: Transport::Tcp,
            tcp_settings: Option::<TcpConfig>::None,
            quic_settings: Option::<ClientQuicConfigV>::None,
        }
    }
}

impl Default for ClientConfig {
    /// The default egress: a direct connection over TCP from an
    /// unspecified bind address.
    fn default() -> (r: Self)
        ensures
            r.deep_view() == ClientConfigV::default_v(),
    {
        ClientConfig {
            bind_interface: NoneOrOne::Absent,
            address: NetLocation::unspecified(),
            protocol: ClientProxyConfig::Direct,
            transport: Transport::Tcp,
            tcp_settings: Option::None,
            quic_settings: Option::None,
        }
    }
}

/// What a matching rule does: allow the connection through a chosen
/// egress (optionally redirecting it), or block it.
#[derive(Debug)]
pub enum RuleActionConfig {
    Allow {
        override_address: Option<NetLocation>,
        client_proxies: OneOrSome<ConfigSelection<ClientConfig>>,
    },
    Block,
}

/// Mathematical model of a [`RuleActionConfig`].
#[verifier::ext_equal]
pub enum RuleActionConfigV {
    Allow {
        override_address: Option<NetLocationV>,
        client_proxies: Seq<ConfigSelectionV<ClientConfigV>>,
    },
    Block,
}

impl DeepView for RuleActionConfig {
    type V = RuleActionConfigV;

    open spec fn deep_view(&self) -> RuleActionConfigV {
        match self {
            RuleActionConfig::Allow { override_address, client_proxies } => {
                RuleActionConfigV::Allow {
                    override_address: override_address.deep_view(),
                    client_proxies: client_proxies.deep_view(),
                }
            },
            RuleActionConfig::Block => RuleActionConfigV::Block,
        }
    }
}

/// A routing rule: the masks it covers and the action it takes.
#[derive(Debug)]
pub struct RuleConfig {
    pub masks: OneOrSome<NetLocationMask>,
    pub action: RuleActionConfig,
}

/// Mathematical model of a [`RuleConfig`].
#[verifier::ext_equal]
pub struct RuleConfigV {
    pub masks: Seq<NetLocationMask>,
    pub action: RuleActionConfigV,
}

impl DeepView for RuleConfig {
    type V = RuleConfigV;

    open spec fn deep_view(&self) -> RuleConfigV {
        RuleConfigV { masks: self.masks.deep_view(), action: self.action.deep_view() }
    }
}

impl RuleConfigV {
    /// The seeded rule: allow any location through the default egress.
    pub open spec fn default_v() -> RuleConfigV {
        RuleConfigV {
            masks: seq![NetLocationMask::spec_any()],
            action: RuleActionConfigV::Allow {
                override_address: Option::<NetLocationV>::None,
                client_proxies: seq![ConfigSelectionV::Config(ClientConfigV::default_v())],
            },
        }
    }
}

impl Default for RuleConfig {
    /// The seeded rule: allow any location through the default egress.
    fn default() -> (r: Self)
        ensures
            r.deep_view() == RuleConfigV::default_v(),
    {
        let r = RuleConfig {
            masks: OneOrSome::One(NetLocationMask::any()),
            action: RuleActionConfig::Allow {
                override_address: Option::None,
                client_proxies: OneOrSome::One(
                    ConfigSelection::Config(ClientConfig::default()),
                ),
            },
        };
        proof {
            assert(r.deep_view() =~= RuleConfigV::default_v());
        }
        r
    }
}

/// The rule list a server gets when its own list is empty: allow any
/// location through the default egress.
pub fn direct_allow_rule() -> (r: NoneOrSome<ConfigSelection<RuleConfig>>)
    ensures
        r.deep_view() =~= seq![ConfigSelectionV::Config(RuleConfigV::default_v())],
        r.items().len() == 1,
        r.items()[0] is Config,
{
    NoneOrSome::One(ConfigSelection::Config(RuleConfig::default()))
}

/// One listener: where it binds, the protocol stack it serves, the
/// transport, transport settings, and its routing rules.
#[derive(Debug)]
pub struct ServerConfig {
    pub bind_location: BindLocation,
    pub protocol: ServerProxyConfig,
    pub transport: Transport,
    pub tcp_settings: Option<TcpConfig>,
    pub quic_settings: Option<ServerQuicConfig>,
    pub rules: NoneOrSome<ConfigSelection<RuleConfig>>,
}

/// Mathematical model of a [`ServerConfig`].
#[verifier::ext_equal]
pub struct ServerConfigV {
    pub bind_location: BindLocationV,
    pub protocol: ServerProxyConfigV,
    pub transport: Transport,
    pub tcp_settings: Option<TcpConfig>,
    pub quic_settings: Option<ServerQuicConfigV>,
    pub rules: Seq<ConfigSelectionV<RuleConfigV>>,
}

impl DeepView for ServerConfig {
    type V = ServerConfigV;

    open spec fn deep_view(&self) -> ServerConfigV {
        ServerConfigV {
            bind_location: self.bind_location.deep_view(),
            protocol: self.protocol.deep_view(),
            transport: self.transport,
            tcp_settings: self.tcp_settings,
            quic_settings: self.quic_settings.deep_view(),
            rules: self.rules.deep_view(),
        }
    }
}

/// One top-level entry of a configuration document: a listener, a named
/// group of egress configurations, or a named group of rules.
#[derive(Debug)]
pub enum Config {
    ServerConfig(ServerConfig),
    ClientConfigGroup { client_group: String, client_proxies: OneOrSome<ClientConfig> },
    RuleConfigGroup { rule_group: String, rules: OneOrSome<RuleConfig> },
}

/// Mathematical model of a [`Config`].
#[verifier::ext_equal]
pub enum ConfigV {
    ServerConfig(ServerConfigV),
    ClientConfigGroup { client_group: Seq<char>, client_proxies: Seq<ClientConfigV> },
    RuleConfigGroup { rule_group: Seq<char>, rules: Seq<RuleConfigV> },
}

impl DeepView for Config {
    type V = ConfigV;

    open spec fn deep_view(&self) -> ConfigV {
        match self {
            Config::ServerConfig(s) => ConfigV::ServerConfig(s.deep_view()),
            Config::ClientConfigGroup { client_group, client_proxies } => {
                ConfigV::ClientConfigGroup {
                    client_group: client_group@,
                    client_proxies: client_proxies.deep_view(),
                }
            },
            Config::RuleConfigGroup { rule_group, rules } => ConfigV::RuleConfigGroup {
                rule_group: rule_group@,
                rules: rules.deep_view(),
            },
        }
    }
}

impl DeepClone for BindLocation {
    fn deep_clone(&self) -> (r: Self) {
        match self {
            BindLocation::Address(a) => BindLocation::Address(a.deep_clone()),
            BindLocation::Path(p) => BindLocation::Path(p.clone()),
        }
    }
}

impl DeepClone for ClientConfig {
    fn deep_clone(&self) -> (r: Self) {
        ClientConfig {
            bind_interface: self.bind_interface.deep_clone(),
            address: self.address.deep_clone(),
            protocol: self.protocol.deep_clone(),
            transport: self.transport,
            tcp_settings: self.tcp_settings,
            quic_settings: self.quic_settings.deep_clone(),
        }
    }
}

impl DeepClone for RuleActionConfig {
    fn deep_clone(&self) -> (r: Self) {
        match self {
            RuleActionConfig::Allow { override_address, client_proxies } => {
                RuleActionConfig::Allow {
                    override_address: override_address.deep_clone(),
                    client_proxies: client_proxies.deep_clone(),
                }
            },
            RuleActionConfig::Block => RuleActionConfig::Block,
        }
    }
}

impl DeepClone for RuleConfig {
    fn deep_clone(&self) -> (r: Self) {
        RuleConfig { masks: self.masks.deep_clone(), action: self.action.deep_clone() }
    }
}

impl ServerProxyConfig {
    /// The short name of the protocol at the top of the stack.
    pub fn protocol_name(&self) -> (r: String)
        ensures
            r@ == self.deep_view().protocol_name(),
    {
        match self {
            ServerProxyConfig::Http { .. } => "HTTP".to_owned(),
            ServerProxyConfig::Socks { .. } => "SOCKS".to_owned(),
            ServerProxyConfig::Shadowsocks(..) => "Shadowsocks".to_owned(),
            ServerProxyConfig::Snell(..) => "Snell".to_owned(),
            ServerProxyConfig::Vless { .. } => "Vless".to_owned(),
            ServerProxyConfig::Trojan { .. } => "Trojan".to_owned(),
            ServerProxyConfig::Tls { .. } => "Tls".to_owned(),
            ServerProxyConfig::Vmess { .. } => "Vmess".to_owned(),
            ServerProxyConfig::Websocket { .. } => "Websocket".to_owned(),
            ServerProxyConfig::PortForward { .. } => "Portforward".to_owned(),
        }
    }
}

impl ServerProxyConfigV {
    /// The short name of the protocol at the top of the stack.
    pub open spec fn protocol_name(self) -> Seq<char> {
        match self {
            ServerProxyConfigV::Http { .. } => "HTTP"@,
            ServerProxyConfigV::Socks { .. } => "SOCKS"@,
            ServerProxyConfigV::Shadowsocks(..) => "Shadowsocks"@,
            ServerProxyConfigV::Snell(..) => "Snell"@,
            ServerProxyConfigV::Vless { .. } => "Vless"@,
            ServerProxyConfigV::Trojan { .. } => "Trojan"@,
            ServerProxyConfigV::Tls { .. } => "Tls"@,
            ServerProxyConfigV::Vmess { .. } => "Vmess"@,
            ServerProxyConfigV::Websocket { .. } => "Websocket"@,
            ServerProxyConfigV::PortForward { .. } => "Portforward"@,
        }
    }
}

} // verus!
