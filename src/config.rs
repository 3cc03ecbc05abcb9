use crate::frpc::FrpcProps;
use vstd::prelude::*;
use vstd::string::StringExecFns;

verus! {

/// Why a configuration could not be loaded or a proxy not resolved.
#[derive(Debug, Clone, Copy, PartialEq, Eq, Structural)]
pub enum ConfigError {
    /// No proxy of that name is configured.
    NotFound,
    /// The properties are malformed or incomplete.
    Invalid,
}


/// Where a named proxy's private endpoint lives, and its protocol family.
#[derive(Debug, Clone)]
pub struct Proxy {
    pub server_addr: String,
    pub server_port: u16,
    pub proxy_type: String,
}

/// The remote rendezvous server and the shared token.
#[derive(Debug, Clone)]
pub struct ClientCommonConfig {
    pub server_addr: String,
    pub server_port: u16,
    pub token: String,
}

pub open spec fn loopback() -> Seq<char> {
    "127.0.0.1"@
}

impl ClientCommonConfig {
    pub fn new() -> (r: ClientCommonConfig)
        ensures
            r.server_addr@ == loopback(),
            r.server_port == 7000,
            r.token@ == Seq::<char>::empty(),
    {
        ClientCommonConfig {
            server_addr: String::from_str("127.0.0.1"),
            server_port: 7000,
            token: String::new(),
        }
    }
}

/// A raw TCP forward: the server listens on `remote_port` and relays to
/// `local_ip:local_port`.
#[derive(Debug, Clone)]
pub struct ClientTcpConfig {
    pub service_type: String,
    pub local_ip: String,
    pub local_port: u16,
    pub remote_port: u16,
}

impl ClientTcpConfig {
    pub fn new() -> (r: ClientTcpConfig)
        ensures
            r.service_type@ == "tcp"@,
            r.local_ip@ == loopback(),
            r.local_port == 0,
            r.remote_port == 0,
    {
        ClientTcpConfig {
            service_type: String::from_str("tcp"),
            local_ip: String::from_str("127.0.0.1"),
            local_port: 0,
            remote_port: 0,
        }
    }
}

/// A virtual-host forward, reached on the server through a custom domain,
/// a subdomain, or both.
#[derive(Debug, Clone)]
pub struct ClientWebConfig {
    pub service_type: String,
    pub local_ip: String,
    pub local_port: u16,
    pub custom_domains: Option<String>,
    pub subdomain: Option<String>,
}

impl ClientWebConfig {
    pub fn new(stype: String) -> (r: ClientWebConfig)
        ensures
            r.service_type == stype,
            r.local_ip@ == loopback(),
            r.local_port == 0,
            r.custom_domains is None,
            r.subdomain is None,
    {
        ClientWebConfig {
            service_type: stype,
            local_ip: String::from_str("127.0.0.1"),
            local_port: 0,
            custom_domains: None,
            subdomain: None,
        }
    }

    /// A web proxy is usable only with a hostname on the server: a custom
    /// domain, a subdomain, or both.
    pub fn check(&self) -> (r: bool)
        ensures
            r == (self.custom_domains is Some || self.subdomain is Some),
    {
        self.custom_domains.is_some() || self.subdomain.is_some()
    }
}

/// The protocols served by a virtual-host (web) forward.
pub open spec fn is_web_protocol(protocol: Seq<char>) -> bool {
    protocol == "http"@ || protocol == "https"@
}

/// Some entry of `entries` is named `name`.
pub open spec fn has_name<T>(entries: Seq<(String, T)>, name: Seq<char>) -> bool {
    exists|i: int| 0 <= i < entries.len() && (#[trigger] entries[i]).0@ == name
}

/// Entry `i` is the first of `entries` named `name`.
pub open spec fn is_first_named<T>(entries: Seq<(String, T)>, name: Seq<char>, i: int) -> bool {
    &&& 0 <= i < entries.len()
    &&& entries[i].0@ == name
    &&& forall|k: int| 0 <= k < i ==> (#[trigger] entries[k]).0@ != name
}

/// `p` describes the TCP proxy `c`.
pub open spec fn describes_tcp(p: Proxy, c: ClientTcpConfig) -> bool {
    &&& p.server_addr@ == c.local_ip@
    &&& p.server_port == c.local_port
    &&& p.proxy_type@ == "tcp"@
}

/// `p` describes the web proxy `c`.
pub open spec fn describes_web(p: Proxy, c: ClientWebConfig) -> bool {
    &&& p.server_addr@ == c.local_ip@
    &&& p.server_port == c.local_port
    &&& p.proxy_type@ == "web"@
}

/// The index of the first entry named `name`, if any.
fn find_named<T>(entries: &Vec<(String, T)>, name: &String) -> (r: Option<usize>)
    ensures
        match r {
            Some(i) => is_first_named(entries@, name@, i as int),
            None => !has_name(entries@, name@),
        },
{
    let mut i: usize = 0;
    while i < entries.len()
        invariant
            i <= entries@.len(),
            forall|k: int| 0 <= k < i ==> (#[trigger] entries@[k]).0@ != name@,
        decreases entries@.len() - i,
    {
        if entries[i].0 == *name {
            return Some(i);
        }
        i = i + 1;
    }
    None
}

/// The common configuration and the named proxies: TCP forwards are looked
/// up before web forwards.
#[derive(Debug, Clone)]
pub struct Config {
    pub common: ClientCommonConfig,
    pub tcp_configs: Vec<(String, ClientTcpConfig)>,
    pub web_configs: Vec<(String, ClientWebConfig)>,
}

impl Config {
    pub fn new() -> (r: Self)
        ensures
            r.common.server_addr@ == loopback(),
            r.common.server_port == 7000,
            r.common.token@ == Seq::<char>::empty(),
            r.tcp_configs@.len() == 0,
            r.web_configs@.len() == 0,
    {
        Config { common: ClientCommonConfig::new(), tcp_configs: Vec::new(), web_configs: Vec::new() }
    }

    pub fn server_addr(&self) -> (r: &str)
        ensures
            r@ == self.common.server_addr@,
    {
        self.common.server_addr.as_str()
    }

    pub fn server_port(&self) -> (r: u16)
        ensures
            r == self.common.server_port,
    {
        self.common.server_port
    }

    pub fn auth_token(&self) -> (r: &str)
        ensures
            r@ == self.common.token@,
    {
        self.common.token.as_str()
    }

    /// Resolves a proxy name: the first TCP forward of that name, else the
    /// first web forward of that name, else `ConfigError::NotFound`.
    pub fn get_proxy(&self, proxy_name: &str) -> (r: Result<Proxy, ConfigError>)
        ensures
            match r {
                Ok(p) => (exists|i: int|
                    is_first_named(self.tcp_configs@, proxy_name@, i) && describes_tcp(
                        p,
                        #[trigger] self.tcp_configs@[i].1,
                    )) || (!has_name(self.tcp_configs@, proxy_name@) && exists|j: int|
                    is_first_named(self.web_configs@, proxy_name@, j) && describes_web(
                        p,
                        #[trigger] self.web_configs@[j].1,
                    )),
                Err(e) => e == ConfigError::NotFound && !has_name(self.tcp_configs@, proxy_name@)
                    && !has_name(self.web_configs@, proxy_name@),
            },
    {
        let name = String::from_str(proxy_name);
        match find_named(&self.tcp_configs, &name) {
            Some(i) => {
                let config = &self.tcp_configs[i].1;
                let p = Proxy {
                    server_addr: config.local_ip.clone(),
                    server_port: config.local_port,
                    proxy_type: String::from_str("tcp"),
                };
                assert(describes_tcp(p, self.tcp_configs@[i as int].1));
                Ok(p)
            },
            None => match find_named(&self.web_configs, &name) {
                Some(j) => {
                    let config = &self.web_configs[j].1;
                    let p = Proxy {
                        server_addr: config.local_ip.clone(),
                        server_port: config.local_port,
                        proxy_type: String::from_str("web"),
                    };
                    assert(describes_web(p, self.web_configs@[j as int].1));
                    Ok(p)
                },
                None => Err(ConfigError::NotFound),
            },
        }
    }

    /// No two proxies, TCP or web, share a name.
    pub open spec fn names_unique(&self) -> bool {
        &&& forall|i: int, j: int|
            0 <= i < j < self.tcp_configs@.len() ==> (#[trigger] self.tcp_configs@[i]).0@
                != (#[trigger] self.tcp_configs@[j]).0@
        &&& forall|i: int, j: int|
            0 <= i < j < self.web_configs@.len() ==> (#[trigger] self.web_configs@[i]).0@
                != (#[trigger] self.web_configs@[j]).0@
        &&& forall|i: int, j: int|
            0 <= i < self.tcp_configs@.len() && 0 <= j < self.web_configs@.len() ==> (
            #[trigger] self.tcp_configs@[i]).0@ != (#[trigger] self.web_configs@[j]).0@
    }

    /// The only proxy is a TCP forward named "service" from the remote port
    /// of `props` to `127.0.0.1` at its local port.
    pub open spec fn holds_tcp_service(&self, props: FrpcProps) -> bool {
        &&& self.tcp_configs@.len() == 1
        &&& self.tcp_configs@[0].0@ == "service"@
        &&& self.tcp_configs@[0].1.service_type@ == "tcp"@
        &&& self.tcp_configs@[0].1.local_ip@ == loopback()
        &&& self.tcp_configs@[0].1.local_port == props.local_port
        &&& self.tcp_configs@[0].1.remote_port == props.remote_port
        &&& self.web_configs@.len() == 0
    }

    /// The only proxy is a web forward named "service" of the protocol of
    /// `props` to `127.0.0.1` at its local port, with no hostname yet.
    pub open spec fn holds_web_service(&self, props: FrpcProps) -> bool {
        &&& self.web_configs@.len() == 1
        &&& self.web_configs@[0].0@ == "service"@
        &&& self.web_configs@[0].1.service_type@ == props.protocol@
        &&& self.web_configs@[0].1.local_ip@ == loopback()
        &&& self.web_configs@[0].1.local_port == props.local_port
        &&& self.web_configs@[0].1.custom_domains is None
        &&& self.web_configs@[0].1.subdomain is None
        &&& self.tcp_configs@.len() == 0
    }

    /// Takes the server address, the server port and the token from `props`,
    /// and makes the one default proxy, named "service": a web forward for
    /// the "http" and "https" protocols, a TCP forward for any other. A web
    /// forward has no hostname yet, so `ClientWebConfig::check` refuses it
    /// until one is set.
    pub fn load_config(&mut self, frpc_props: &FrpcProps) -> (r: Result<(), ConfigError>)
        ensures
            r is Ok,
            final(self).common.server_addr@ == frpc_props.remote_addr@,
            final(self).common.server_port == frpc_props.remote_port,
            final(self).common.token@ == frpc_props.token@,
            final(self).names_unique(),
            is_web_protocol(frpc_props.protocol@) ==> final(self).holds_web_service(*frpc_props),
            !is_web_protocol(frpc_props.protocol@) ==> final(self).holds_tcp_service(*frpc_props),
    {
        self.parse_common_config(frpc_props);
        self.parse_proxy_config(frpc_props);
        Ok(())
    }

    fn parse_common_config(&mut self, frpc_props: &FrpcProps)
        ensures
            final(self).common.server_addr@ == frpc_props.remote_addr@,
            final(self).common.server_port == frpc_props.remote_port,
            final(self).common.token@ == frpc_props.token@,
            final(self).tcp_configs == old(self).tcp_configs,
            final(self).web_configs == old(self).web_configs,
    {
        self.common.server_addr = frpc_props.remote_addr.clone();
        self.common.server_port = frpc_props.remote_port;
        self.common.token = frpc_props.token.clone();
    }

    fn parse_proxy_config(&mut self, frpc_props: &FrpcProps)
        ensures
            final(self).common == old(self).common,
            final(self).names_unique(),
            is_web_protocol(frpc_props.protocol@) ==> final(self).holds_web_service(*frpc_props),
            !is_web_protocol(frpc_props.protocol@) ==> final(self).holds_tcp_service(*frpc_props),
    {
        let http = String::from_str("http");
        let https = String::from_str("https");
        if frpc_props.protocol == http || frpc_props.protocol == https {
            let mut web_proxy_config = ClientWebConfig::new(frpc_props.protocol.clone());
            web_proxy_config.local_port = frpc_props.local_port;
            self.tcp_configs = Vec::new();
            self.web_configs = vec![(String::from_str("service"), web_proxy_config)];
        } else {
            let mut tcp_proxy_config = ClientTcpConfig::new();
            tcp_proxy_config.local_port = frpc_props.local_port;
            tcp_proxy_config.remote_port = frpc_props.remote_port;
            self.tcp_configs = vec![(String::from_str("service"), tcp_proxy_config)];
            self.web_configs = Vec::new();
        }
    }
}

} // verus!
