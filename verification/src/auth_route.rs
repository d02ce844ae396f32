//! Which outbound route the clients for authentication take.
use vstd::prelude::*;

verus! {

/// How a client finds its way out.
#[derive(Clone, Copy, Debug, PartialEq, Eq, Structural)]
pub enum OutboundProxyMode {
    Auto,
    Env,
    System,
    Direct,
}

/// The outbound configuration of a client.
#[derive(Clone, Copy, Debug, PartialEq, Eq, Structural)]
pub struct OutboundProxyConfig {
    pub mode: OutboundProxyMode,
}

impl OutboundProxyConfig {
    pub fn new(mode: OutboundProxyMode) -> (config: OutboundProxyConfig)
        ensures
            config.mode == mode,
    {
        OutboundProxyConfig { mode }
    }
}

/// The modes that the system proxy feature can be configured to.
#[derive(Clone, Copy, Debug, PartialEq, Eq, Structural)]
pub enum SystemProxyFeatureModeToml {
    Auto,
    Env,
    System,
    Direct,
}

impl Default for SystemProxyFeatureModeToml {
    fn default() -> (mode: SystemProxyFeatureModeToml)
        ensures
            mode == SystemProxyFeatureModeToml::Auto,
    {
        SystemProxyFeatureModeToml::Auto
    }
}

/// The configured system proxy feature.
#[derive(Clone, Copy, Debug, PartialEq, Eq, Structural)]
pub struct SystemProxyFeatureConfigToml {
    pub enabled: Option<bool>,
    pub mode: Option<SystemProxyFeatureModeToml>,
}

/// The stable route selection policy for clients of the login service.
///
/// Callers pass this type along in place of the details of route resolution.
#[derive(Clone, Copy, Debug, PartialEq, Eq, Structural)]
pub struct AuthRouteConfig {
    route_config: Option<OutboundProxyConfig>,
}

impl Default for AuthRouteConfig {
    /// No route is selected.
    fn default() -> (config: AuthRouteConfig)
        ensures
            config.route() is None,
    {
        AuthRouteConfig { route_config: None }
    }
}

impl AuthRouteConfig {
    /// The selected route, if there is one.
    pub closed spec fn route(&self) -> Option<OutboundProxyConfig> {
        self.route_config
    }

    pub fn auto() -> (config: AuthRouteConfig)
        ensures
            config.route() == Some(OutboundProxyConfig { mode: OutboundProxyMode::Auto }),
    {
        Self::from_outbound_proxy_mode(OutboundProxyMode::Auto)
    }

    pub fn env() -> (config: AuthRouteConfig)
        ensures
            config.route() == Some(OutboundProxyConfig { mode: OutboundProxyMode::Env }),
    {
        Self::from_outbound_proxy_mode(OutboundProxyMode::Env)
    }

    pub fn system() -> (config: AuthRouteConfig)
        ensures
            config.route() == Some(OutboundProxyConfig { mode: OutboundProxyMode::System }),
    {
        Self::from_outbound_proxy_mode(OutboundProxyMode::System)
    }

    pub fn direct() -> (config: AuthRouteConfig)
        ensures
            config.route() == Some(OutboundProxyConfig { mode: OutboundProxyMode::Direct }),
    {
        Self::from_outbound_proxy_mode(OutboundProxyMode::Direct)
    }

    /// The selected route, if there is one.
    pub fn route_config(&self) -> (res: Option<&OutboundProxyConfig>)
        ensures
            res is Some <==> self.route() is Some,
            res matches Some(config) ==> self.route() == Some(*config),
    {
        self.route_config.as_ref()
    }

    fn from_outbound_proxy_mode(mode: OutboundProxyMode) -> (config: AuthRouteConfig)
        ensures
            config.route() == Some(OutboundProxyConfig { mode }),
    {
        AuthRouteConfig { route_config: Some(OutboundProxyConfig::new(mode)) }
    }
}

/// The outbound mode that a configured mode stands for.
pub open spec fn outbound_mode(mode: SystemProxyFeatureModeToml) -> OutboundProxyMode {
    match mode {
        SystemProxyFeatureModeToml::Auto => OutboundProxyMode::Auto,
        SystemProxyFeatureModeToml::Env => OutboundProxyMode::Env,
        SystemProxyFeatureModeToml::System => OutboundProxyMode::System,
        SystemProxyFeatureModeToml::Direct => OutboundProxyMode::Direct,
    }
}

/// The mode in force: the configured one, or automatic selection.
pub open spec fn effective_mode(
    system_proxy: SystemProxyFeatureConfigToml,
) -> SystemProxyFeatureModeToml {
    match system_proxy.mode {
        Some(mode) => mode,
        None => SystemProxyFeatureModeToml::Auto,
    }
}

/// The route that a configured system proxy feature selects.
pub open spec fn configured_route(
    system_proxy: SystemProxyFeatureConfigToml,
) -> OutboundProxyConfig {
    OutboundProxyConfig { mode: outbound_mode(effective_mode(system_proxy)) }
}

/// The route that is selected at startup: only an explicit system mode selects
/// one there.
pub open spec fn startup_route(
    system_proxy: Option<SystemProxyFeatureConfigToml>,
) -> Option<OutboundProxyConfig> {
    match system_proxy {
        Some(config) if config.mode == Some(SystemProxyFeatureModeToml::System) => Some(
            OutboundProxyConfig { mode: OutboundProxyMode::System },
        ),
        _ => None,
    }
}

/// The route for a configured system proxy feature.
pub fn auth_route_config_from_system_proxy_config(
    system_proxy: &SystemProxyFeatureConfigToml,
) -> (config: AuthRouteConfig)
    ensures
        config.route() == Some(configured_route(*system_proxy)),
{
    let mode = match system_proxy.mode {
        Some(mode) => mode,
        None => SystemProxyFeatureModeToml::default(),
    };
    match mode {
        SystemProxyFeatureModeToml::Auto => AuthRouteConfig::auto(),
        SystemProxyFeatureModeToml::Env => AuthRouteConfig::env(),
        SystemProxyFeatureModeToml::System => AuthRouteConfig::system(),
        SystemProxyFeatureModeToml::Direct => AuthRouteConfig::direct(),
    }
}

/// The route for the explicit platform system proxy at startup.
///
/// There is one only where the configuration names the system mode.
pub fn bootstrap_auth_route_config_from_system_proxy_config(
    system_proxy: Option<&SystemProxyFeatureConfigToml>,
) -> (res: Option<AuthRouteConfig>)
    ensures
        res is Some <==> startup_route(
            match system_proxy {
                Some(config) => Some(*config),
                None => None,
            },
        ) is Some,
        res matches Some(config) ==> system_proxy is Some && config.route() == startup_route(
            Some(*system_proxy.unwrap()),
        ),
{
    match system_proxy {
        None => None,
        Some(system_proxy) => match system_proxy.mode {
            Some(SystemProxyFeatureModeToml::System) => Some(
                auth_route_config_from_system_proxy_config(system_proxy),
            ),
            _ => None,
        },
    }
}

/// Where startup selects a route, it is the one that the configuration selects;
/// where it selects none, the configuration does not select the system route.
pub proof fn law_startup_agrees(system_proxy: SystemProxyFeatureConfigToml)
    ensures
        startup_route(Some(system_proxy)) matches Some(route) ==> route == configured_route(
            system_proxy,
        ),
        startup_route(Some(system_proxy)) is None ==> configured_route(system_proxy).mode
            != OutboundProxyMode::System,
        startup_route(None) is None,
{
}

/// The mode decides the route, each its own, and automatic selection where none is
/// configured. Whether the feature is enabled plays no part.
pub proof fn law_route_follows_mode(
    a: SystemProxyFeatureConfigToml,
    b: SystemProxyFeatureConfigToml,
)
    ensures
        a.mode == b.mode ==> configured_route(a) == configured_route(b),
        a.mode is Some && b.mode is Some && a.mode != b.mode ==> configured_route(a)
            != configured_route(b),
        a.mode is None ==> configured_route(a).mode == OutboundProxyMode::Auto,
        configured_route(a).mode == OutboundProxyMode::Auto <==> (a.mode is None || a.mode == Some(
            SystemProxyFeatureModeToml::Auto,
        )),
        configured_route(a).mode == OutboundProxyMode::Env <==> a.mode == Some(
            SystemProxyFeatureModeToml::Env,
        ),
        configured_route(a).mode == OutboundProxyMode::System <==> a.mode == Some(
            SystemProxyFeatureModeToml::System,
        ),
        configured_route(a).mode == OutboundProxyMode::Direct <==> a.mode == Some(
            SystemProxyFeatureModeToml::Direct,
        ),
        startup_route(Some(a)) is Some <==> a.mode == Some(SystemProxyFeatureModeToml::System),
{
}

} // verus!
